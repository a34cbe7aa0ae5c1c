//! What the querier holds, as mathematical values, and what it answers to each request.
use vstd::prelude::*;
use vstd::utf8::{encode_utf8, is_ascii_chars_encode_utf8};

use crate::base::coins_held;
use crate::coins::{
    amount_of, credit_all, credit_all_fits, debit_all, debit_all_fits, has_denom, taxed, taxes_fit,
};
use crate::deps::human_address;
use crate::json::{
    all_balances_json, bank_balance_json, decimal_field_json, number_field_json, number_json,
    token_info_json,
};
use crate::length_prefix::length_prefixed;
use crate::tokens::{
    accounts_of, balance_in, credit_tokens, debit_tokens, total, AccountsView, AmountsView,
    TokensView,
};
use crate::types::{
    BankQueryView, CoinView, Cw20MsgView, Decimal, ReplyView, RequestView, RouterMsgView,
    SwapOperationView, SystemErrorView, TerraQueryView, TerraRoute,
};
use crate::wire::{cw20_msg_of, request_of, router_msg_of};

verus! {

/// The address that the swap router answers at.
pub const TERRASWAP_ROUTER: &'static str = "terraswap_router";

/// What the querier holds.
#[verifier::ext_equal]
pub struct QuerierView {
    /// The coins of each address.
    pub native: Map<Seq<char>, Seq<CoinView>>,
    /// The balances of each token.
    pub tokens: TokensView,
    /// The tax rate.
    pub tax_rate: Decimal,
    /// The tax cap of each denomination.
    pub tax_caps: AccountsView,
    /// The price of each swap, as the bits of a floating-point number, by the names of the asset
    /// that is offered and of the one that is asked for.
    pub prices: Map<(Seq<char>, Seq<char>), u64>,
}

/// The storage key under which a token contract keeps its description.
pub open spec fn token_info_key() -> Seq<u8> {
    length_prefixed(encode_utf8("token_info"@))
}

/// What the storage key of a balance starts with; the canonical address follows.
pub open spec fn balance_prefix() -> Seq<u8> {
    length_prefixed(encode_utf8("balance"@))
}

/// How long the two names in the keys of a token contract are.
pub(crate) proof fn lemma_key_names()
    ensures
        encode_utf8("token_info"@).len() == 10,
        encode_utf8("balance"@).len() == 7,
        balance_prefix().len() == 9,
{
    reveal_strlit("token_info");
    reveal_strlit("balance");
    is_ascii_chars_encode_utf8("token_info"@);
    is_ascii_chars_encode_utf8("balance"@);
}

/// The refusal of a request that is not supported.
pub open spec fn unsupported(kind: Seq<char>) -> ReplyView {
    Err(SystemErrorView::UnsupportedRequest { kind })
}

/// The refusal of a request that cannot be answered.
pub open spec fn invalid(error: Seq<char>, request: Seq<u8>) -> ReplyView {
    Err(SystemErrorView::InvalidRequest { error, request })
}

/// The answer `text`.
pub open spec fn answer(text: Seq<u8>) -> ReplyView {
    Ok(Ok(text))
}

/// The refusal for a token contract that is not listed.
pub open spec fn no_balance_info(contract_addr: Seq<char>, key: Seq<u8>) -> ReplyView {
    invalid("No balance info exists for the contract "@ + contract_addr, key)
}

/// The answer to a query for the balance stored under `key`, where `address` is the readable form
/// of the address in the key and `accounts` are those of the token.
pub open spec fn stored_balance_reply(
    accounts: AccountsView,
    key: Seq<u8>,
    address: Option<Seq<char>>,
) -> ReplyView {
    match address {
        None => invalid("Parsing query request"@, key),
        Some(address) => if accounts.contains_key(address) {
            answer(number_json(accounts[address]))
        } else {
            invalid("Balance not found"@, key)
        },
    }
}

/// What swaps at a price do to an amount: which amounts become which at which price.
pub type SwapStep = spec_fn(u128, u64, u128) -> bool;

/// What swaps do where `step` computes what an amount becomes at a price.
pub open spec fn outcomes<F: Fn(u128, u64) -> u128>(step: F) -> SwapStep {
    |amount: u128, price: u64, outcome: u128| call_ensures(step, (amount, price), outcome)
}

/// Whether the amount `offer` may become `outcome` when it goes through swaps at `prices` in turn.
pub open spec fn swap_outcome(
    step: SwapStep,
    offer: u128,
    prices: Seq<u64>,
    outcome: u128,
) -> bool
    decreases prices.len(),
{
    if prices.len() == 0 {
        outcome == offer
    } else {
        exists|before: u128|
            swap_outcome(step, offer, prices.drop_last(), before) && #[trigger] step(
                before,
                prices.last(),
                outcome,
            )
    }
}

impl QuerierView {
    /// A querier that holds nothing but the coins `native`.
    pub open spec fn with_native(native: Map<Seq<char>, Seq<CoinView>>) -> Self {
        QuerierView {
            native,
            tokens: Map::empty(),
            tax_rate: Decimal { atomics: 0 },
            tax_caps: Map::empty(),
            prices: Map::empty(),
        }
    }

    /// What the querier holds after `coins` were added to those of `address`.
    pub open spec fn native_credit(self, address: Seq<char>, coins: Seq<CoinView>) -> Self {
        QuerierView {
            native: self.native.insert(
                address,
                credit_all(coins_held(self.native, address), coins),
            ),
            ..self
        }
    }

    /// `coins` can be added to those of `address` without exceeding the largest amount.
    pub open spec fn native_credit_fits(self, address: Seq<char>, coins: Seq<CoinView>) -> bool {
        credit_all_fits(coins_held(self.native, address), coins)
    }

    /// What the querier holds after `coins` were taken from those of `address`.
    pub open spec fn native_debit(self, address: Seq<char>, coins: Seq<CoinView>) -> Self {
        QuerierView {
            native: self.native.insert(address, debit_all(coins_held(self.native, address), coins)),
            ..self
        }
    }

    /// There is enough to take `coins` from those of `address`.
    pub open spec fn native_debit_fits(self, address: Seq<char>, coins: Seq<CoinView>) -> bool {
        debit_all_fits(coins_held(self.native, address), coins)
    }

    /// What the querier holds after `coins` with the tax on each were taken from the coins of
    /// `address`; with luna among them nothing is taken.
    pub open spec fn taxed_debit(
        self,
        address: Seq<char>,
        coins: Seq<CoinView>,
        taxes: Seq<u128>,
    ) -> Self {
        if has_denom(coins, "uluna"@) {
            self
        } else {
            self.native_debit(address, taxed(coins, taxes))
        }
    }

    /// `coins` with the tax on each can be taken from the coins of `address`.
    pub open spec fn taxed_debit_fits(
        self,
        address: Seq<char>,
        coins: Seq<CoinView>,
        taxes: Seq<u128>,
    ) -> bool {
        &&& taxes_fit(coins, taxes, "uluna"@)
        &&& !has_denom(coins, "uluna"@) ==> self.native_debit_fits(address, taxed(coins, taxes))
    }

    /// What the querier holds after token balances were added.
    pub open spec fn token_credit(self, added: Seq<(Seq<char>, AmountsView)>) -> Self {
        QuerierView { tokens: credit_tokens(self.tokens, added), ..self }
    }

    /// What the querier holds after token balances were taken away.
    pub open spec fn token_debit(self, taken: Seq<(Seq<char>, AmountsView)>) -> Self {
        QuerierView { tokens: debit_tokens(self.tokens, taken), ..self }
    }

    /// What the querier holds after the price of a swap was set.
    pub open spec fn with_price(self, offer: Seq<char>, ask: Seq<char>, price: u64) -> Self {
        QuerierView { prices: self.prices.insert((offer, ask), price), ..self }
    }

    /// The answer to a query of native balances.
    pub open spec fn bank_reply(self, query: BankQueryView) -> ReplyView {
        match query {
            BankQueryView::Balance { address, denom } => answer(
                bank_balance_json((denom, amount_of(coins_held(self.native, address), denom))),
            ),
            BankQueryView::AllBalances { address } => answer(
                all_balances_json(coins_held(self.native, address)),
            ),
        }
    }

    /// The answer to a query for the tax rate.
    pub open spec fn tax_rate_reply(self) -> ReplyView {
        answer(decimal_field_json("rate"@, self.tax_rate.atomics as nat))
    }

    /// The answer to a query for the tax cap of a denomination, zero where none is set.
    pub open spec fn tax_cap_reply(self, denom: Seq<char>) -> ReplyView {
        answer(number_field_json("cap"@, balance_in(self.tax_caps, denom)))
    }

    /// The answer to a query of the treasury.
    pub open spec fn treasury_reply(self, query_data: TerraQueryView) -> ReplyView {
        match query_data {
            TerraQueryView::TaxRate => self.tax_rate_reply(),
            TerraQueryView::TaxCap { denom } => self.tax_cap_reply(denom),
            _ => unsupported("handle_custom_treasury"@),
        }
    }

    /// The answer to a custom query.
    pub open spec fn custom_reply(
        self,
        route: TerraRoute,
        query_data: TerraQueryView,
    ) -> ReplyView {
        match route {
            TerraRoute::Treasury => self.treasury_reply(query_data),
            _ => unsupported("handle_custom"@),
        }
    }

    /// The answer to a query for the description of a token, which is passed on where the key is
    /// another one.
    pub open spec fn token_info_reply(
        self,
        contract_addr: Seq<char>,
        key: Seq<u8>,
    ) -> Option<ReplyView> {
        if key != token_info_key() {
            None
        } else if !self.tokens.contains_key(contract_addr) {
            Some(no_balance_info(contract_addr, key))
        } else {
            Some(
                answer(
                    token_info_json(
                        contract_addr + "Token"@,
                        "TOK"@,
                        6,
                        total(self.tokens[contract_addr]) as u128,
                    ),
                ),
            )
        }
    }

    /// The supply of a token, where its description is asked for, does not exceed the largest
    /// balance.
    pub open spec fn answers_token_info(self, contract_addr: Seq<char>, key: Seq<u8>) -> bool {
        key == token_info_key() ==> total(accounts_of(self.tokens, contract_addr)) <= u128::MAX
    }

    /// The answer to a query for a stored balance.
    pub open spec fn balance_reply(self, contract_addr: Seq<char>, key: Seq<u8>) -> ReplyView {
        if !self.tokens.contains_key(contract_addr) {
            no_balance_info(contract_addr, key)
        } else {
            stored_balance_reply(
                self.tokens[contract_addr],
                key,
                human_address(key.skip(balance_prefix().len() as int)),
            )
        }
    }

    /// The answer to a query of what a contract stores.
    pub open spec fn wasm_raw_reply(self, contract_addr: Seq<char>, key: Seq<u8>) -> ReplyView {
        match self.token_info_reply(contract_addr, key) {
            Some(reply) => reply,
            None => self.balance_reply(contract_addr, key),
        }
    }

    /// A query of what a contract stores is for its description or for a balance.
    pub open spec fn answers_wasm_raw(self, contract_addr: Seq<char>, key: Seq<u8>) -> bool {
        &&& self.answers_token_info(contract_addr, key)
        &&& key != token_info_key() ==> key.len() >= balance_prefix().len()
    }

    /// The prices of the swaps `operations`.
    pub open spec fn operation_prices(self, operations: Seq<SwapOperationView>) -> Seq<u64> {
        operations.map_values(|operation: SwapOperationView| self.prices[operation.pair()])
    }

    /// There is a price for each of the swaps `operations`.
    pub open spec fn has_prices(self, operations: Seq<SwapOperationView>) -> bool {
        forall|i: int|
            0 <= i < operations.len() ==> self.prices.contains_key(#[trigger] operations[i].pair())
    }

    /// There is a price for each of the swaps that a message to the router asks for.
    pub open spec fn answers_router_msg(self, msg: Option<RouterMsgView>) -> bool {
        msg matches Some(RouterMsgView::SimulateSwapOperations { operations, .. })
            ==> self.has_prices(operations)
    }

    /// Whether `reply` may be the answer to a simulated swap.
    pub open spec fn simulation_replies(
        self,
        step: SwapStep,
        offer_amount: u128,
        operations: Seq<SwapOperationView>,
        reply: ReplyView,
    ) -> bool {
        exists|outcome: u128| #[trigger]
            swap_outcome(step, offer_amount, self.operation_prices(operations), outcome) && reply
                == answer(number_field_json("amount"@, outcome))
    }

    /// Whether `reply` may be the answer to a message to the router, which is passed on where it
    /// is not one.
    pub open spec fn router_replies(
        self,
        step: SwapStep,
        msg: Option<RouterMsgView>,
        reply: Option<ReplyView>,
    ) -> bool {
        match msg {
            None => reply is None,
            Some(RouterMsgView::Config) => reply == Some(
                unsupported("handle_wasm_smart:terraswap_router"@),
            ),
            Some(RouterMsgView::SimulateSwapOperations { offer_amount, operations }) => {
                reply matches Some(reply) && self.simulation_replies(
                    step,
                    offer_amount,
                    operations,
                    reply,
                )
            },
        }
    }

    /// The message to the router that `msg` holds, none for any other contract.
    pub open spec fn routed_msg(contract_addr: Seq<char>, msg: Seq<u8>) -> Option<RouterMsgView> {
        if contract_addr == TERRASWAP_ROUTER@ {
            router_msg_of(msg)
        } else {
            None
        }
    }

    /// The answer to a message to a token contract, which is passed on where it is not one.
    pub open spec fn cw20_reply(
        self,
        contract_addr: Seq<char>,
        msg: Option<Cw20MsgView>,
    ) -> Option<ReplyView> {
        match msg {
            None => None,
            Some(Cw20MsgView::Balance { address }) => Some(
                answer(
                    number_field_json(
                        "balance"@,
                        balance_in(self.tokens[contract_addr], address),
                    ),
                ),
            ),
            Some(_) => Some(unsupported("handle_wasm_smart:cw20"@)),
        }
    }

    /// The token contract that a balance is asked of is listed.
    pub open spec fn answers_cw20_msg(
        self,
        contract_addr: Seq<char>,
        msg: Option<Cw20MsgView>,
    ) -> bool {
        msg matches Some(Cw20MsgView::Balance { .. }) ==> self.tokens.contains_key(contract_addr)
    }

    /// Whether `reply` may be the answer to a message to a contract: the router's, or else the
    /// token contract's.
    pub open spec fn wasm_smart_replies(
        self,
        step: SwapStep,
        contract_addr: Seq<char>,
        msg: Seq<u8>,
        reply: ReplyView,
    ) -> bool {
        if Self::routed_msg(contract_addr, msg) is Some {
            self.router_replies(step, Self::routed_msg(contract_addr, msg), Some(reply))
        } else {
            reply == match self.cw20_reply(contract_addr, cw20_msg_of(msg)) {
                Some(reply) => reply,
                None => unsupported("handle_wasm_smart"@),
            }
        }
    }

    /// The contract that a message goes to has what is asked for.
    pub open spec fn answers_wasm_smart(self, contract_addr: Seq<char>, msg: Seq<u8>) -> bool {
        &&& self.answers_router_msg(Self::routed_msg(contract_addr, msg))
        &&& Self::routed_msg(contract_addr, msg) is None ==> self.answers_cw20_msg(
            contract_addr,
            cw20_msg_of(msg),
        )
    }

    /// Whether `reply` may be the answer to `request`.
    pub open spec fn replies(
        self,
        step: SwapStep,
        request: RequestView,
        reply: ReplyView,
    ) -> bool {
        match request {
            RequestView::Bank(query) => reply == self.bank_reply(query),
            RequestView::Custom { route, query_data } => reply == self.custom_reply(
                route,
                query_data,
            ),
            RequestView::WasmRaw { contract_addr, key } => reply == self.wasm_raw_reply(
                contract_addr,
                key,
            ),
            RequestView::WasmSmart { contract_addr, msg } => self.wasm_smart_replies(
                step,
                contract_addr,
                msg,
                reply,
            ),
        }
    }

    /// The querier has what `request` asks for.
    pub open spec fn answers(self, request: RequestView) -> bool {
        match request {
            RequestView::Bank(_) => true,
            RequestView::Custom { .. } => true,
            RequestView::WasmRaw { contract_addr, key } => self.answers_wasm_raw(
                contract_addr,
                key,
            ),
            RequestView::WasmSmart { contract_addr, msg } => self.answers_wasm_smart(
                contract_addr,
                msg,
            ),
        }
    }

    /// Whether `reply` may be the answer to the request that the JSON text `text` holds.
    pub open spec fn raw_replies(
        self,
        step: SwapStep,
        text: Seq<u8>,
        reply: ReplyView,
    ) -> bool {
        match request_of(text) {
            Some(request) => self.replies(step, request, reply),
            None => reply == invalid("Parsing query request"@, text),
        }
    }

    /// The querier has what the request in the JSON text `text`, if it holds one, asks for.
    pub open spec fn answers_raw(self, text: Seq<u8>) -> bool {
        request_of(text) matches Some(request) ==> self.answers(request)
    }
}

} // verus!
