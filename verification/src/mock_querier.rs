//! The querier: it answers queries of native balances, taxes, token contracts and the swap
//! router from what it was told to hold.
use cosmwasm_std::testing::MockApi;
use cosmwasm_std::MemoryStorage;
use vstd::prelude::*;
use vstd::slice::{slice_subrange, slice_to_vec};
use vstd::string::StringExecFns;

use crate::base::{
    coins_held, holdings_view, native_balances, read_coins, set_holdings, MockQuerier,
};
use crate::coins::{
    credit_coins, debit_coins, denom_index, lemma_denom_index, lemma_denom_index_is, taxed,
};
use crate::deps::{
    addr_humanize, mock_api, mock_contract_addr, mock_storage, storage_contents, CANONICAL_LENGTH,
};
use crate::length_prefix::to_length_prefixed;
use crate::model::{
    balance_prefix, invalid, lemma_key_names, no_balance_info, outcomes, stored_balance_reply,
    swap_outcome, unsupported, QuerierView, TERRASWAP_ROUTER,
};
use crate::string_map::{keys_are_finite, StringMap};
use crate::tokens::{
    accounts_of, amounts_view, balances_to_map, balances_view, caps_to_map, credit_tokens_fits,
    credited_tokens, debit_tokens_fits, debited_tokens, list_map, token_map, tokens_view,
    total_supply, AccountsView, TokensView,
};
use crate::types::{
    address_view, coins_view, cw20_msg_view, operations_view, passed_reply_view, reply_view,
    router_msg_view, BankQuery, Coin, CoinView, Cw20Msg, Decimal, QuerierResult, QueryRequest,
    RouterMsg, RouterMsgView, SwapOperation, SystemError, TerraQuery, TerraRoute,
};
use crate::wire::{
    asset_info_to_string, cw20_balance_reply, cw20_msg_of, read_cw20_msg, read_request,
    read_router_msg, simulation_reply, tax_cap_reply, tax_rate_reply, token_info_reply,
};

verus! {

/// The dependencies of a contract under test.
pub struct CustomDeps {
    pub storage: MemoryStorage,
    pub api: MockApi,
    pub querier: WasmMockQuerier,
}

/// Dependencies with an empty storage and a querier that holds nothing but the contract itself,
/// without coins.
pub fn custom_deps() -> (deps: CustomDeps)
    ensures
        storage_contents(deps.storage) == Map::<Seq<u8>, Seq<u8>>::empty(),
        deps.querier@ == QuerierView::with_native(
            map!["cosmos2contract"@ => Seq::<CoinView>::empty()],
        ),
{
    let coins: Vec<Coin> = Vec::new();
    let holdings: [(&str, &[Coin]); 1] = [(mock_contract_addr(), coins.as_slice())];
    let base = MockQuerier::new(&holdings);
    proof {
        let view = holdings_view(holdings@);
        assert(view.last().1 =~= Seq::<CoinView>::empty());
        assert(set_holdings(Map::empty(), view.drop_last()) =~= Map::empty());
    }
    CustomDeps { storage: mock_storage(), api: mock_api(), querier: WasmMockQuerier::new(base) }
}

/// The prices that the swap router goes by.
#[derive(Clone)]
pub struct TerraswapRouterQuerier {
    prices: StringMap<StringMap<u64>>,
}

impl View for TerraswapRouterQuerier {
    type V = Map<(Seq<char>, Seq<char>), u64>;

    closed spec fn view(&self) -> Map<(Seq<char>, Seq<char>), u64> {
        Map::new(
            |pair: (Seq<char>, Seq<char>)|
                self.prices@.contains_key(pair.0) && self.prices@[pair.0]@.contains_key(pair.1),
            |pair: (Seq<char>, Seq<char>)| self.prices@[pair.0]@[pair.1],
        )
    }
}

impl TerraswapRouterQuerier {
    /// A router without prices.
    pub fn new() -> (querier: Self)
        ensures
            querier@ == Map::<(Seq<char>, Seq<char>), u64>::empty(),
    {
        TerraswapRouterQuerier { prices: StringMap::new() }
    }

    /// The price of swapping `offer` for `ask`.
    fn price(&self, offer: &String, ask: &String) -> (price: Option<u64>)
        ensures
            match price {
                Some(price) => self@.contains_key((offer@, ask@)) && price == self@[(
                    offer@,
                    ask@,
                )],
                None => !self@.contains_key((offer@, ask@)),
            },
    {
        match self.prices.get(offer) {
            Some(prices) => match prices.get(ask) {
                Some(price) => Some(*price),
                None => None,
            },
            None => None,
        }
    }

    /// Sets the price of swapping `offer` for `ask`.
    fn set_price(&mut self, offer: String, ask: String, price: u64)
        ensures
            final(self)@ == old(self)@.insert((offer@, ask@), price),
    {
        let mut prices = match self.prices.remove(&offer) {
            Some(prices) => prices,
            None => StringMap::new(),
        };
        prices.insert(ask, price);
        self.prices.insert(offer, prices);
    }
}

impl Default for TerraswapRouterQuerier {
    /// A router without prices.
    fn default() -> (querier: Self)
        ensures
            querier@ == Map::<(Seq<char>, Seq<char>), u64>::empty(),
    {
        TerraswapRouterQuerier::new()
    }
}

/// The balances of each token.
#[derive(Clone)]
pub struct TokenQuerier {
    balances: StringMap<StringMap<u128>>,
}

impl View for TokenQuerier {
    type V = TokensView;

    closed spec fn view(&self) -> TokensView {
        tokens_view(self.balances@)
    }
}

impl TokenQuerier {
    /// The balances listed; of entries for the same token or account the last counts.
    pub fn new(balances: &[(&str, &[(&str, &u128)])]) -> (querier: Self)
        ensures
            querier@ == token_map(balances_view(balances@)),
    {
        TokenQuerier { balances: balances_to_map(balances) }
    }
}

impl Default for TokenQuerier {
    /// No token.
    fn default() -> (querier: Self)
        ensures
            querier@ == Map::<Seq<char>, AccountsView>::empty(),
    {
        TokenQuerier { balances: StringMap::new() }
    }
}

/// The taxes.
#[derive(Clone)]
pub struct TaxQuerier {
    rate: Decimal,
    caps: StringMap<u128>,
}

/// The tax rate, and the tax cap of each denomination.
pub struct TaxView {
    pub rate: Decimal,
    pub caps: AccountsView,
}

impl View for TaxQuerier {
    type V = TaxView;

    closed spec fn view(&self) -> TaxView {
        TaxView { rate: self.rate, caps: self.caps@ }
    }
}

impl TaxQuerier {
    /// The rate given and the caps listed; of entries for the same denomination the last counts.
    pub fn new(rate: Decimal, caps: &[(&str, &u128)]) -> (querier: Self)
        ensures
            querier@ == (TaxView { rate, caps: list_map(amounts_view(caps@)) }),
    {
        TaxQuerier { rate, caps: caps_to_map(caps) }
    }
}

impl Default for TaxQuerier {
    /// No tax.
    fn default() -> (querier: Self)
        ensures
            querier@ == (TaxView {
                rate: Decimal { atomics: 0 },
                caps: Map::<Seq<char>, u128>::empty(),
            }),
    {
        TaxQuerier { rate: Decimal::default(), caps: StringMap::new() }
    }
}

/// A querier that answers from what it was told to hold.
pub struct WasmMockQuerier {
    base: MockQuerier,
    token_querier: TokenQuerier,
    tax_querier: TaxQuerier,
    terraswap_router_querier: TerraswapRouterQuerier,
}

impl View for WasmMockQuerier {
    type V = QuerierView;

    closed spec fn view(&self) -> QuerierView {
        QuerierView {
            native: native_balances(self.base),
            tokens: self.token_querier@,
            tax_rate: self.tax_querier@.rate,
            tax_caps: self.tax_querier@.caps,
            prices: self.terraswap_router_querier@,
        }
    }
}

/// A querier holds finitely many tokens, and finitely many accounts of each.
pub proof fn held_tokens_are_finite(querier: WasmMockQuerier, contract_addr: Seq<char>)
    ensures
        querier@.tokens.dom().finite(),
        accounts_of(querier@.tokens, contract_addr).dom().finite(),
{
    let balances = querier.token_querier.balances;
    keys_are_finite(balances);
    assert(querier@.tokens.dom() =~= balances@.dom());
    if balances@.contains_key(contract_addr) {
        keys_are_finite(balances@[contract_addr]);
    }
}

/// Whether `step` tells for every amount what it becomes at every price.
pub open spec fn is_total<F: Fn(u128, u64) -> u128>(step: F) -> bool {
    forall|amount: u128, price: u64| #[trigger] call_requires(step, (amount, price))
}

/// Whether two byte strings are the same.
fn same_bytes(a: &[u8], b: &[u8]) -> (same: bool)
    ensures
        same == (a@ == b@),
{
    if a.len() != b.len() {
        return false;
    }
    let mut i: usize = 0;
    while i < a.len()
        invariant
            a@.len() == b@.len(),
            i <= a@.len(),
            forall|j: int| 0 <= j < i ==> a@[j] == b@[j],
        decreases a@.len() - i,
    {
        if a[i] != b[i] {
            return false;
        }
        i = i + 1;
    }
    assert(a@ =~= b@);
    true
}

/// A copy of a list of coins.
fn copy_coins(coins: &[Coin]) -> (copy: Vec<Coin>)
    ensures
        coins_view(copy@) == coins_view(coins@),
{
    let mut copy: Vec<Coin> = Vec::new();
    let mut n: usize = 0;
    while n < coins.len()
        invariant
            n <= coins@.len(),
            coins_view(copy@) =~= coins_view(coins@).take(n as int),
        decreases coins@.len() - n,
    {
        let ghost before = copy@;
        copy.push(Coin { denom: coins[n].denom.clone(), amount: coins[n].amount });
        assert(coins_view(copy@) =~= coins_view(before).push(coins@[n as int]@));
        n = n + 1;
    }
    copy
}

/// The refusal of a request of the kind `kind`.
fn unsupported_request(kind: &str) -> (reply: QuerierResult)
    ensures
        reply_view(reply) == unsupported(kind@),
{
    Err(SystemError::UnsupportedRequest { kind: kind.to_string() })
}

/// The refusal of `request` for the reason `error`.
fn invalid_request(error: &str, request: &[u8]) -> (reply: QuerierResult)
    ensures
        reply_view(reply) == invalid(error@, request@),
{
    Err(SystemError::InvalidRequest { error: error.to_string(), request: slice_to_vec(request) })
}

/// The refusal for a token contract that is not listed.
fn no_balance_info_for(contract_addr: &String, key: &[u8]) -> (reply: QuerierResult)
    ensures
        reply_view(reply) == no_balance_info(contract_addr@, key@),
{
    let mut error = "No balance info exists for the contract ".to_string();
    error.append(contract_addr.as_str());
    invalid_request(error.as_str(), key)
}

/// The names of the asset that a swap offers and of the one that it asks for.
pub fn terraswap_operation_to_string(operation: &SwapOperation) -> (pair: (String, String))
    ensures
        (pair.0@, pair.1@) == operation@.pair(),
{
    match operation {
        SwapOperation::NativeSwap { offer_denom, ask_denom } => {
            (offer_denom.clone(), ask_denom.clone())
        },
        SwapOperation::TerraSwap { offer_asset_info, ask_asset_info } => {
            (asset_info_to_string(offer_asset_info), asset_info_to_string(ask_asset_info))
        },
    }
}

/// The balance that one of `accounts` has stored under `key`, where `address` is the readable
/// form of the address in the key.
pub fn answer_stored_balance(
    accounts: &StringMap<u128>,
    key: &[u8],
    address: Option<String>,
) -> (reply: QuerierResult)
    ensures
        reply_view(reply) == stored_balance_reply(accounts@, key@, address_view(address)),
{
    match address {
        None => invalid_request("Parsing query request", key),
        Some(address) => match accounts.get(&address) {
            Some(balance) => Ok(Ok(crate::wire::stored_balance_reply(*balance))),
            None => invalid_request("Balance not found", key),
        },
    }
}

impl WasmMockQuerier {
    /// A querier that holds nothing but the coins of `base`.
    pub fn new(base: MockQuerier) -> (querier: Self)
        ensures
            querier@ == QuerierView::with_native(native_balances(base)),
    {
        WasmMockQuerier {
            base,
            token_querier: TokenQuerier::default(),
            tax_querier: TaxQuerier::default(),
            terraswap_router_querier: TerraswapRouterQuerier::default(),
        }
    }

    /// Answers a request in its JSON form. `step` tells what an amount becomes when it is swapped
    /// at a price.
    pub fn raw_query<F: Fn(u128, u64) -> u128>(&self, bin_request: &[u8], step: &F) -> (reply:
        QuerierResult)
        requires
            is_total(*step),
            self@.answers_raw(bin_request@),
        ensures
            self@.raw_replies(outcomes(*step), bin_request@, reply_view(reply)),
    {
        match read_request(bin_request) {
            Some(request) => self.handle_query(&request, step),
            None => invalid_request("Parsing query request", bin_request),
        }
    }

    /// Answers a request. `step` tells what an amount becomes when it is swapped at a price.
    pub fn handle_query<F: Fn(u128, u64) -> u128>(
        &self,
        request: &QueryRequest,
        step: &F,
    ) -> (reply: QuerierResult)
        requires
            is_total(*step),
            self@.answers(request@),
        ensures
            self@.replies(outcomes(*step), request@, reply_view(reply)),
    {
        match request {
            QueryRequest::Bank(query) => Ok(Ok(self.base.handle_query(query))),
            QueryRequest::Custom { route, query_data } => self.handle_custom(*route, query_data),
            QueryRequest::WasmRaw { contract_addr, key } => self.handle_wasm_raw(
                contract_addr,
                key.as_slice(),
            ),
            QueryRequest::WasmSmart { contract_addr, msg } => self.handle_wasm_smart(
                contract_addr,
                msg.as_slice(),
                step,
            ),
        }
    }

    /// Answers a custom query.
    pub fn handle_custom(&self, route: TerraRoute, query_data: &TerraQuery) -> (reply:
        QuerierResult)
        ensures
            reply_view(reply) == self@.custom_reply(route, query_data@),
    {
        match route {
            TerraRoute::Treasury => self.handle_custom_treasury(query_data),
            _ => unsupported_request("handle_custom"),
        }
    }

    /// Answers a query of the treasury.
    pub fn handle_custom_treasury(&self, query_data: &TerraQuery) -> (reply: QuerierResult)
        ensures
            reply_view(reply) == self@.treasury_reply(query_data@),
    {
        match query_data {
            TerraQuery::TaxRate => self.query_tax_rate(),
            TerraQuery::TaxCap { denom } => self.query_tax_cap(denom),
            _ => unsupported_request("handle_custom_treasury"),
        }
    }

    /// Answers a query of what a contract stores: its description or a balance.
    pub fn handle_wasm_raw(&self, contract_addr: &String, key: &[u8]) -> (reply: QuerierResult)
        requires
            self@.answers_wasm_raw(contract_addr@, key@),
        ensures
            reply_view(reply) == self@.wasm_raw_reply(contract_addr@, key@),
    {
        match self.query_token_info(contract_addr, key) {
            Some(reply) => reply,
            None => self.query_balance(contract_addr, key),
        }
    }

    /// Answers a message to a contract: as the router, or else as a token contract.
    pub fn handle_wasm_smart<F: Fn(u128, u64) -> u128>(
        &self,
        contract_addr: &String,
        msg: &[u8],
        step: &F,
    ) -> (reply: QuerierResult)
        requires
            is_total(*step),
            self@.answers_wasm_smart(contract_addr@, msg@),
        ensures
            self@.wasm_smart_replies(outcomes(*step), contract_addr@, msg@, reply_view(reply)),
    {
        match self.handle_wasm_smart_terraswap_router(contract_addr, msg, step) {
            Some(reply) => reply,
            None => match self.handle_cw20(contract_addr, msg) {
                Some(reply) => reply,
                None => unsupported_request("handle_wasm_smart"),
            },
        }
    }

    /// Answers a message to the router, and passes on any other.
    pub fn handle_wasm_smart_terraswap_router<F: Fn(u128, u64) -> u128>(
        &self,
        contract_addr: &String,
        msg: &[u8],
        step: &F,
    ) -> (reply: Option<QuerierResult>)
        requires
            is_total(*step),
            self@.answers_router_msg(QuerierView::routed_msg(contract_addr@, msg@)),
        ensures
            self@.router_replies(
                outcomes(*step),
                QuerierView::routed_msg(contract_addr@, msg@),
                passed_reply_view(reply),
            ),
    {
        if *contract_addr != TERRASWAP_ROUTER.to_string() {
            return None;
        }
        self.answer_router_msg(read_router_msg(msg), step)
    }

    /// Answers what was read of a message to the router: a simulated swap carries the amount
    /// offered through the price of each of its operations.
    pub fn answer_router_msg<F: Fn(u128, u64) -> u128>(
        &self,
        msg: Option<RouterMsg>,
        step: &F,
    ) -> (reply: Option<QuerierResult>)
        requires
            is_total(*step),
            self@.answers_router_msg(router_msg_view(msg)),
        ensures
            self@.router_replies(outcomes(*step), router_msg_view(msg), passed_reply_view(reply)),
    {
        match msg {
            None => None,
            Some(RouterMsg::Config) => Some(
                unsupported_request("handle_wasm_smart:terraswap_router"),
            ),
            Some(RouterMsg::SimulateSwapOperations { offer_amount, operations }) => {
                let ghost all = operations_view(operations@);
                let ghost prices = self@.operation_prices(all);
                let mut amount: u128 = offer_amount;
                let mut n: usize = 0;
                while n < operations.len()
                    invariant
                        n <= operations@.len(),
                        is_total(*step),
                        all == operations_view(operations@),
                        prices == self@.operation_prices(all),
                        self@.has_prices(all),
                        swap_outcome(outcomes(*step), offer_amount, prices.take(n as int), amount),
                    decreases operations@.len() - n,
                {
                    let (offer, ask) = terraswap_operation_to_string(&operations[n]);
                    proof {
                        assert(prices.take(n + 1).drop_last() =~= prices.take(n as int));
                        assert(prices.take(n + 1).last() == prices[n as int]);
                    }
                    let price: u64 = self.terraswap_router_querier.price(&offer, &ask).unwrap();
                    let ghost before = amount;
                    amount = step(amount, price);
                    assert(outcomes(*step)(before, prices[n as int], amount));
                    n = n + 1;
                }
                assert(prices.take(n as int) =~= prices);
                Some(Ok(Ok(simulation_reply(amount))))
            },
        }
    }

    /// Answers a message to a token contract, and passes on any other.
    pub fn handle_cw20(&self, contract_addr: &String, msg: &[u8]) -> (reply: Option<QuerierResult>)
        requires
            self@.answers_cw20_msg(contract_addr@, cw20_msg_of(msg@)),
        ensures
            passed_reply_view(reply) == self@.cw20_reply(
                contract_addr@,
                cw20_msg_of(msg@),
            ),
    {
        self.answer_cw20_msg(contract_addr, read_cw20_msg(msg))
    }

    /// Answers what was read of a message to a token contract: a query for a balance, which is
    /// zero where the account is not listed.
    pub fn answer_cw20_msg(&self, contract_addr: &String, msg: Option<Cw20Msg>) -> (reply: Option<
        QuerierResult,
    >)
        requires
            self@.answers_cw20_msg(contract_addr@, cw20_msg_view(msg)),
        ensures
            passed_reply_view(reply) == self@.cw20_reply(contract_addr@, cw20_msg_view(msg)),
    {
        match msg {
            None => None,
            Some(Cw20Msg::Balance { address }) => {
                let accounts = self.token_querier.balances.get(contract_addr).unwrap();
                let balance: u128 = match accounts.get(&address) {
                    Some(balance) => *balance,
                    None => 0,
                };
                Some(Ok(Ok(cw20_balance_reply(balance))))
            },
            Some(_) => Some(unsupported_request("handle_wasm_smart:cw20")),
        }
    }

    /// Answers with the tax rate.
    pub fn query_tax_rate(&self) -> (reply: QuerierResult)
        ensures
            reply_view(reply) == self@.tax_rate_reply(),
    {
        Ok(Ok(tax_rate_reply(self.tax_querier.rate)))
    }

    /// Answers with the tax cap of a denomination, zero where none is set.
    pub fn query_tax_cap(&self, denom: &String) -> (reply: QuerierResult)
        ensures
            reply_view(reply) == self@.tax_cap_reply(denom@),
    {
        let cap: u128 = match self.tax_querier.caps.get(denom) {
            Some(cap) => *cap,
            None => 0,
        };
        Ok(Ok(tax_cap_reply(cap)))
    }

    /// Answers a query for the description of a token, and passes on any other.
    pub fn query_token_info(&self, contract_addr: &String, key: &[u8]) -> (reply: Option<
        QuerierResult,
    >)
        requires
            self@.answers_token_info(contract_addr@, key@),
        ensures
            passed_reply_view(reply) == self@.token_info_reply(contract_addr@, key@),
    {
        proof {
            lemma_key_names();
        }
        let token_info = to_length_prefixed("token_info".as_bytes());
        if !same_bytes(key, token_info.as_slice()) {
            return None;
        }
        match self.token_querier.balances.get(contract_addr) {
            None => Some(no_balance_info_for(contract_addr, key)),
            Some(accounts) => {
                let total_supply: u128 = total_supply(accounts).unwrap();
                let mut name = contract_addr.clone();
                name.append("Token");
                Some(Ok(Ok(token_info_reply(name, "TOK".to_string(), 6, total_supply))))
            },
        }
    }

    /// Answers a query for a stored balance. What the key starts with is not looked at; what
    /// follows has to be as long as a canonical address.
    pub fn query_balance(&self, contract_addr: &String, key: &[u8]) -> (reply: QuerierResult)
        requires
            key@.len() >= balance_prefix().len(),
        ensures
            reply_view(reply) == self@.balance_reply(contract_addr@, key@),
            self@.tokens.contains_key(contract_addr@) && key@.len() != balance_prefix().len()
                + CANONICAL_LENGTH ==> reply_view(reply) == invalid(
                "Parsing query request"@,
                key@,
            ),
    {
        proof {
            lemma_key_names();
        }
        let prefix = to_length_prefixed("balance".as_bytes());
        match self.token_querier.balances.get(contract_addr) {
            None => no_balance_info_for(contract_addr, key),
            Some(accounts) => {
                let key_address = slice_subrange(key, prefix.len(), key.len());
                let address = addr_humanize(&mock_api(), key_address);
                answer_stored_balance(accounts, key, address)
            },
        }
    }
}

impl WasmMockQuerier {
    /// Whether the querier has what a query of a contract's storage asks for.
    fn can_answer_wasm_raw(&self, contract_addr: &String, key: &[u8]) -> (answers: bool)
        ensures
            answers == self@.answers_wasm_raw(contract_addr@, key@),
    {
        proof {
            lemma_key_names();
        }
        let token_info = to_length_prefixed("token_info".as_bytes());
        if same_bytes(key, token_info.as_slice()) {
            match self.token_querier.balances.get(contract_addr) {
                Some(accounts) => {
                    total_supply(accounts).is_some()
                },
                None => true,
            }
        } else {
            key.len() >= to_length_prefixed("balance".as_bytes()).len()
        }
    }

    /// Whether the querier has what a message to the router asks for.
    fn can_answer_router_msg(&self, msg: &Option<RouterMsg>) -> (answers: bool)
        ensures
            answers == self@.answers_router_msg(router_msg_view(*msg)),
    {
        match msg {
            Some(RouterMsg::SimulateSwapOperations { offer_amount, operations }) => {
                let ghost all = operations_view(operations@);
                let mut n: usize = 0;
                while n < operations.len()
                    invariant
                        n <= operations@.len(),
                        all == operations_view(operations@),
                        router_msg_view(*msg) == Some(
                            RouterMsgView::SimulateSwapOperations {
                                offer_amount: *offer_amount,
                                operations: all,
                            },
                        ),
                        self@.has_prices(all.take(n as int)),
                    decreases operations@.len() - n,
                {
                    let (offer, ask) = terraswap_operation_to_string(&operations[n]);
                    assert(all[n as int].pair() == (offer@, ask@));
                    if self.terraswap_router_querier.price(&offer, &ask).is_none() {
                        return false;
                    }
                    proof {
                        let next = all.take(n + 1);
                        assert forall|i: int| 0 <= i < next.len() implies self@.prices.contains_key(
                            #[trigger] next[i].pair(),
                        ) by {
                            if i < n {
                                assert(next[i] == all.take(n as int)[i]);
                            }
                        }
                    }
                    n = n + 1;
                }
                assert(all.take(n as int) =~= all);
                true
            },
            _ => true,
        }
    }

    /// Whether the querier has what a message to a contract asks for.
    fn can_answer_wasm_smart(&self, contract_addr: &String, msg: &[u8]) -> (answers: bool)
        ensures
            answers == self@.answers_wasm_smart(contract_addr@, msg@),
    {
        if *contract_addr == TERRASWAP_ROUTER.to_string() {
            let router_msg = read_router_msg(msg);
            if router_msg.is_some() {
                return self.can_answer_router_msg(&router_msg);
            }
        }
        match read_cw20_msg(msg) {
            Some(Cw20Msg::Balance { address: _ }) => self.token_querier.balances.contains_key(
                contract_addr,
            ),
            _ => true,
        }
    }

    /// Whether the querier has what a request asks for: the price of each swap, the token whose
    /// balance is asked for, a supply that is not too large, a key that is long enough.
    pub fn can_answer(&self, request: &QueryRequest) -> (answers: bool)
        ensures
            answers == self@.answers(request@),
    {
        match request {
            QueryRequest::Bank(_) => true,
            QueryRequest::Custom { route: _, query_data: _ } => true,
            QueryRequest::WasmRaw { contract_addr, key } => self.can_answer_wasm_raw(
                contract_addr,
                key.as_slice(),
            ),
            QueryRequest::WasmSmart { contract_addr, msg } => self.can_answer_wasm_smart(
                contract_addr,
                msg.as_slice(),
            ),
        }
    }

    /// Answers a request where the querier has what it asks for, and not at all where it has not.
    pub fn try_handle_query<F: Fn(u128, u64) -> u128>(
        &self,
        request: &QueryRequest,
        step: &F,
    ) -> (reply: Option<QuerierResult>)
        requires
            is_total(*step),
        ensures
            reply is Some <==> self@.answers(request@),
            reply matches Some(reply) ==> self@.replies(
                outcomes(*step),
                request@,
                reply_view(reply),
            ),
    {
        if self.can_answer(request) {
            Some(self.handle_query(request, step))
        } else {
            None
        }
    }

    /// Answers a request in its JSON form where the querier has what it asks for, and not at all
    /// where it has not.
    pub fn try_raw_query<F: Fn(u128, u64) -> u128>(
        &self,
        bin_request: &[u8],
        step: &F,
    ) -> (reply: Option<QuerierResult>)
        requires
            is_total(*step),
        ensures
            reply is Some <==> self@.answers_raw(bin_request@),
            reply matches Some(reply) ==> self@.raw_replies(
                outcomes(*step),
                bin_request@,
                reply_view(reply),
            ),
    {
        match read_request(bin_request) {
            Some(request) => if self.can_answer(&request) {
                Some(self.raw_query(bin_request, step))
            } else {
                None
            },
            None => Some(self.raw_query(bin_request, step)),
        }
    }
}

impl WasmMockQuerier {
    /// Sets the balances of all tokens to those listed.
    pub fn with_token_balances(&mut self, balances: &[(&str, &[(&str, &u128)])])
        ensures
            final(self)@ == (QuerierView {
                tokens: token_map(balances_view(balances@)),
                ..old(self)@
            }),
    {
        self.token_querier = TokenQuerier::new(balances);
    }

    /// Adds to the balances of tokens those listed, unless one would exceed the largest balance;
    /// then nothing changes.
    pub fn try_plus_token_balances(&mut self, balances: &[(&str, &[(&str, &u128)])]) -> (done: bool)
        ensures
            done == credit_tokens_fits(old(self)@.tokens, balances_view(balances@)),
            done ==> final(self)@ == old(self)@.token_credit(balances_view(balances@)),
            !done ==> final(self)@ == old(self)@,
    {
        match credited_tokens(&self.token_querier.balances, balances) {
            Some(balances) => {
                self.token_querier = TokenQuerier { balances };
                true
            },
            None => false,
        }
    }

    /// Adds to the balances of tokens those listed. A token or an account that is not listed is
    /// listed then.
    pub fn plus_token_balances(&mut self, balances: &[(&str, &[(&str, &u128)])])
        requires
            credit_tokens_fits(old(self)@.tokens, balances_view(balances@)),
        ensures
            final(self)@ == old(self)@.token_credit(balances_view(balances@)),
    {
        let _ = self.try_plus_token_balances(balances);
    }

    /// Takes from the balances of tokens those listed, unless one is not enough; then nothing
    /// changes.
    pub fn try_minus_token_balances(&mut self, balances: &[(&str, &[(&str, &u128)])]) -> (done:
        bool)
        ensures
            done == debit_tokens_fits(old(self)@.tokens, balances_view(balances@)),
            done ==> final(self)@ == old(self)@.token_debit(balances_view(balances@)),
            !done ==> final(self)@ == old(self)@,
    {
        match debited_tokens(&self.token_querier.balances, balances) {
            Some(balances) => {
                self.token_querier = TokenQuerier { balances };
                true
            },
            None => false,
        }
    }

    /// Takes from the balances of tokens those listed. A token or an account that is not listed
    /// is listed then.
    pub fn minus_token_balances(&mut self, balances: &[(&str, &[(&str, &u128)])])
        requires
            debit_tokens_fits(old(self)@.tokens, balances_view(balances@)),
        ensures
            final(self)@ == old(self)@.token_debit(balances_view(balances@)),
    {
        let _ = self.try_minus_token_balances(balances);
    }

    /// Sets the tax rate and all tax caps.
    pub fn with_tax(&mut self, rate: Decimal, caps: &[(&str, &u128)])
        ensures
            final(self)@ == (QuerierView {
                tax_rate: rate,
                tax_caps: list_map(amounts_view(caps@)),
                ..old(self)@
            }),
    {
        self.tax_querier = TaxQuerier::new(rate, caps);
    }

    /// The coins that `address` holds.
    fn native_coins(&self, address: &str) -> (coins: Vec<Coin>)
        ensures
            coins_view(coins@) == coins_held(self@.native, address@),
    {
        let query = BankQuery::AllBalances { address: address.to_string() };
        let text = self.base.handle_query(&query);
        read_coins(text.as_slice()).unwrap()
    }

    /// Adds `balances` to the coins of `address`, unless one would exceed the largest amount;
    /// then nothing changes.
    pub fn try_plus_native_balance(&mut self, address: &str, balances: Vec<Coin>) -> (done: bool)
        ensures
            done == old(self)@.native_credit_fits(address@, coins_view(balances@)),
            done ==> final(self)@ == old(self)@.native_credit(address@, coins_view(balances@)),
            !done ==> final(self)@ == old(self)@,
    {
        match credit_coins(self.native_coins(address), &balances) {
            Some(coins) => {
                self.base.update_balance(address, coins);
                true
            },
            None => false,
        }
    }

    /// Adds `balances` to the coins of `address`: to the first coin of the same denomination, or
    /// behind the others.
    pub fn plus_native_balance(&mut self, address: &str, balances: Vec<Coin>)
        requires
            old(self)@.native_credit_fits(address@, coins_view(balances@)),
        ensures
            final(self)@ == old(self)@.native_credit(address@, coins_view(balances@)),
    {
        let _ = self.try_plus_native_balance(address, balances);
    }

    /// Takes `balances` from the coins of `address`, unless there is not enough of one; then
    /// nothing changes.
    pub fn try_minus_native_balance(&mut self, address: &str, balances: Vec<Coin>) -> (done: bool)
        ensures
            done == old(self)@.native_debit_fits(address@, coins_view(balances@)),
            done ==> final(self)@ == old(self)@.native_debit(address@, coins_view(balances@)),
            !done ==> final(self)@ == old(self)@,
    {
        match debit_coins(self.native_coins(address), &balances) {
            Some(coins) => {
                self.base.update_balance(address, coins);
                true
            },
            None => false,
        }
    }

    /// Takes `balances` from the coins of `address`: from the first coin of the same
    /// denomination.
    pub fn minus_native_balance(&mut self, address: &str, balances: Vec<Coin>)
        requires
            old(self)@.native_debit_fits(address@, coins_view(balances@)),
        ensures
            final(self)@ == old(self)@.native_debit(address@, coins_view(balances@)),
    {
        let _ = self.try_minus_native_balance(address, balances);
    }

    /// Takes `balances` with the tax on each from the coins of `address`, as
    /// `minus_native_balance_with_tax` does. Where a tax is missing, an amount would exceed the
    /// largest one, or there is not enough of a coin, nothing changes.
    pub fn try_minus_native_balance_with_tax(
        &mut self,
        address: &str,
        balances: Vec<Coin>,
        taxes: &[u128],
    ) -> (done: bool)
        ensures
            done == old(self)@.taxed_debit_fits(address@, coins_view(balances@), taxes@),
            done ==> final(self)@ == old(self)@.taxed_debit(
                address@,
                coins_view(balances@),
                taxes@,
            ),
            !done ==> final(self)@ == old(self)@,
    {
        let ghost all = coins_view(balances@);
        let mut sums: Vec<Coin> = Vec::new();
        let mut n: usize = 0;
        while n < balances.len()
            invariant
                n <= balances@.len(),
                all == coins_view(balances@),
                self@ == old(self)@,
                forall|i: int| 0 <= i < n ==> (#[trigger] all[i]).0 != "uluna"@,
                n <= taxes@.len(),
                forall|i: int|
                    0 <= i < n ==> (#[trigger] all[i]).1 + taxes@[i] <= u128::MAX,
                coins_view(sums@) == taxed(all, taxes@).take(n as int),
            decreases balances@.len() - n,
        {
            if balances[n].denom == "uluna".to_string() {
                proof {
                    lemma_denom_index_is(all, "uluna"@, n as int);
                }
                return true;
            }
            proof {
                lemma_denom_index(all, "uluna"@);
                if denom_index(all, "uluna"@) <= n {
                    assert(all[denom_index(all, "uluna"@) as int].0 != "uluna"@);
                }
                assert(all[n as int] == balances@[n as int]@);
            }
            if n >= taxes.len() {
                return false;
            }
            match balances[n].amount.checked_add(taxes[n]) {
                Some(amount) => {
                    let ghost before = sums@;
                    sums.push(Coin { denom: balances[n].denom.clone(), amount });
                    assert(coins_view(sums@) =~= coins_view(before).push(
                        taxed(all, taxes@)[n as int],
                    ));
                },
                None => {
                    return false;
                },
            }
            n = n + 1;
        }
        proof {
            lemma_denom_index_is(all, "uluna"@, n as int);
            assert(taxed(all, taxes@).take(n as int) =~= taxed(all, taxes@));
        }
        self.try_minus_native_balance(address, sums)
    }

    /// Takes `balances` from the coins of `address`, with the tax on each, which `taxes` list in
    /// the same order. Luna is not taxed: where there is any among `balances`, nothing is taken at
    /// all.
    pub fn minus_native_balance_with_tax(
        &mut self,
        address: &str,
        balances: Vec<Coin>,
        taxes: &[u128],
    )
        requires
            old(self)@.taxed_debit_fits(address@, coins_view(balances@), taxes@),
        ensures
            final(self)@ == old(self)@.taxed_debit(address@, coins_view(balances@), taxes@),
    {
        let _ = self.try_minus_native_balance_with_tax(address, balances, taxes);
    }

    /// Sets the coins of each address listed.
    pub fn with_balance(&mut self, balances: &[(&str, &[Coin])])
        ensures
            final(self)@ == (QuerierView {
                native: set_holdings(old(self)@.native, holdings_view(balances@)),
                ..old(self)@
            }),
    {
        let ghost all = holdings_view(balances@);
        let mut n: usize = 0;
        while n < balances.len()
            invariant
                n <= balances@.len(),
                all == holdings_view(balances@),
                self@ == (QuerierView {
                    native: set_holdings(old(self)@.native, all.take(n as int)),
                    ..old(self)@
                }),
            decreases balances@.len() - n,
        {
            assert(all.take(n + 1).drop_last() =~= all.take(n as int));
            self.base.update_balance(balances[n].0, copy_coins(balances[n].1));
            n = n + 1;
        }
        assert(all.take(n as int) =~= all);
    }

    /// Sets the price of swapping `offer` for `ask`, given as the bits of a floating-point
    /// number.
    pub fn with_terraswap_price(&mut self, offer: String, ask: String, price: u64)
        ensures
            final(self)@ == old(self)@.with_price(offer@, ask@, price),
    {
        self.terraswap_router_querier.set_price(offer, ask, price);
    }
}

} // verus!
