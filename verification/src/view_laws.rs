//! What the contracts see of a value is all of it: every entry of a list in its place, and every
//! part of a request, a message or a reply.
use vstd::prelude::*;

use crate::base::{holdings_view, read_coins_view};
use crate::string_map::StringMap;
use crate::tokens::{amounts_view, balances_view, powers_view, tokens_view};
use crate::types::{
    address_view, coins_view, cw20_msg_view, operations_view, passed_reply_view, reply_view,
    request_view, router_msg_view, AssetInfo, AssetInfoView, BankQuery, BankQueryView, Coin,
    Cw20Msg, Cw20MsgView, Decimal, QuerierResult, QueryRequest, RequestView, RouterMsg,
    RouterMsgView, SwapOperation, SwapOperationView, SystemError, SystemErrorView, TerraQuery,
    TerraQueryView,
};

verus! {

/// A list of coins is seen entry by entry, with the denomination and the amount of each.
pub proof fn every_coin_is_seen(coins: Seq<Coin>, i: int)
    requires
        0 <= i < coins.len(),
    ensures
        coins_view(coins).len() == coins.len(),
        coins_view(coins)[i] == (coins[i].denom@, coins[i].amount),
{
}

/// No coins are seen where there are none, and coins of one more list follow those of the first.
pub proof fn coin_lists_are_seen_in_turn(a: Seq<Coin>, b: Seq<Coin>)
    ensures
        coins_view(a + b) == coins_view(a) + coins_view(b),
        coins_view(a + b).len() == a.len() + b.len(),
{
    assert(coins_view(a + b) =~= coins_view(a) + coins_view(b));
}

/// A list of names with an amount each is seen entry by entry.
pub proof fn every_amount_is_seen(amounts: Seq<(&str, &u128)>)
    ensures
        amounts_view(amounts).len() == amounts.len(),
        forall|i: int|
            0 <= i < amounts.len() ==> #[trigger] amounts_view(amounts)[i] == (
                amounts[i].0@,
                *amounts[i].1,
            ),
{
}

/// A list of token contracts with their accounts is seen entry by entry, and so are the accounts.
pub proof fn every_balance_is_seen(balances: Seq<(&str, &[(&str, &u128)])>)
    ensures
        balances_view(balances).len() == balances.len(),
        forall|i: int|
            0 <= i < balances.len() ==> (#[trigger] balances_view(balances)[i]).0 == balances[i].0@
                && balances_view(balances)[i].1.len() == balances[i].1@.len(),
        forall|i: int, j: int|
            0 <= i < balances.len() && 0 <= j < balances[i].1@.len()
                ==> #[trigger] balances_view(balances)[i].1[j] == (
                balances[i].1@[j].0@,
                *balances[i].1@[j].1,
            ),
{
}

/// A list of addresses with their coins is seen entry by entry, and so are the coins.
pub proof fn every_holding_is_seen(holdings: Seq<(&str, &[Coin])>)
    ensures
        holdings_view(holdings).len() == holdings.len(),
        forall|i: int|
            0 <= i < holdings.len() ==> (#[trigger] holdings_view(holdings)[i]).0 == holdings[i].0@
                && holdings_view(holdings)[i].1.len() == holdings[i].1@.len(),
        forall|i: int, j: int|
            0 <= i < holdings.len() && 0 <= j < holdings[i].1@.len()
                ==> #[trigger] holdings_view(holdings)[i].1[j] == (
                holdings[i].1@[j].denom@,
                holdings[i].1@[j].amount,
            ),
{
}

/// A list of names with a decimal each is seen entry by entry.
pub proof fn every_power_is_seen(powers: Seq<(&String, &Decimal)>)
    ensures
        powers_view(powers).len() == powers.len(),
        forall|i: int|
            0 <= i < powers.len() ==> #[trigger] powers_view(powers)[i] == (
                powers[i].0@,
                *powers[i].1,
            ),
{
}

/// A map of token contracts is seen contract by contract, each with all its accounts.
pub proof fn every_token_is_seen(tokens: Map<Seq<char>, StringMap<u128>>, contract: Seq<char>)
    ensures
        tokens_view(tokens).contains_key(contract) <==> tokens.contains_key(contract),
        tokens.contains_key(contract) ==> tokens_view(tokens)[contract] == tokens[contract]@,
{
}

/// A path of swaps is seen swap by swap.
pub proof fn every_swap_is_seen(operations: Seq<SwapOperation>)
    ensures
        operations_view(operations).len() == operations.len(),
        forall|i: int|
            0 <= i < operations.len() ==> #[trigger] operations_view(operations)[i]
                == operations[i]@,
{
}

/// A swap goes by the names of its two assets in turn: denominations of native tokens, contract
/// addresses of others.
pub proof fn swaps_are_named_by_their_assets(
    offer: String,
    ask: String,
    operation: SwapOperation,
)
    ensures
        (SwapOperation::NativeSwap { offer_denom: offer, ask_denom: ask })@
            == (SwapOperationView::NativeSwap { offer_denom: offer@, ask_denom: ask@ }),
        (SwapOperation::NativeSwap { offer_denom: offer, ask_denom: ask })@.pair() == (
            offer@,
            ask@,
        ),
        (AssetInfo::Token { contract_addr: offer })@ == (AssetInfoView::Token {
            contract_addr: offer@,
        }),
        (AssetInfo::NativeToken { denom: offer })@ == (AssetInfoView::NativeToken {
            denom: offer@,
        }),
        operation matches SwapOperation::TerraSwap { offer_asset_info, ask_asset_info } ==> {
            &&& operation@ == (SwapOperationView::TerraSwap {
                offer_asset_info: offer_asset_info@,
                ask_asset_info: ask_asset_info@,
            })
            &&& offer_asset_info matches AssetInfo::Token { contract_addr }
                ==> operation@.pair().0 == contract_addr@
            &&& offer_asset_info matches AssetInfo::NativeToken { denom } ==> operation@.pair().0
                == denom@
            &&& ask_asset_info matches AssetInfo::Token { contract_addr } ==> operation@.pair().1
                == contract_addr@
            &&& ask_asset_info matches AssetInfo::NativeToken { denom } ==> operation@.pair().1
                == denom@
        },
{
}

/// The name of an asset is its contract address or its denomination.
pub proof fn assets_are_named(name: Seq<char>)
    ensures
        (AssetInfoView::Token { contract_addr: name }).name() == name,
        (AssetInfoView::NativeToken { denom: name }).name() == name,
{
}

/// A request is seen with all its parts.
pub proof fn every_part_of_a_request_is_seen(request: QueryRequest)
    ensures
        match request {
            QueryRequest::Bank(BankQuery::Balance { address, denom }) => request@
                == RequestView::Bank(
                BankQueryView::Balance { address: address@, denom: denom@ },
            ),
            QueryRequest::Bank(BankQuery::AllBalances { address }) => request@ == RequestView::Bank(
                BankQueryView::AllBalances { address: address@ },
            ),
            QueryRequest::Custom { route, query_data } => request@ == (RequestView::Custom {
                route,
                query_data: query_data@,
            }),
            QueryRequest::WasmRaw { contract_addr, key } => request@ == (RequestView::WasmRaw {
                contract_addr: contract_addr@,
                key: key@,
            }),
            QueryRequest::WasmSmart { contract_addr, msg } => request@ == (RequestView::WasmSmart {
                contract_addr: contract_addr@,
                msg: msg@,
            }),
        },
        request_view(Some(request)) == Some(request@),
        request_view(None) is None,
{
}

/// A query is seen with all its parts, by itself and in a request.
pub proof fn every_part_of_a_query_is_seen(bank: BankQuery, treasury: TerraQuery)
    ensures
        match bank {
            BankQuery::Balance { address, denom } => bank@ == (BankQueryView::Balance {
                address: address@,
                denom: denom@,
            }),
            BankQuery::AllBalances { address } => bank@ == (BankQueryView::AllBalances {
                address: address@,
            }),
        },
        match treasury {
            TerraQuery::Swap => treasury@ is Swap,
            TerraQuery::TaxRate => treasury@ is TaxRate,
            TerraQuery::TaxCap { denom } => treasury@ == (TerraQueryView::TaxCap { denom: denom@ }),
            TerraQuery::ExchangeRates => treasury@ is ExchangeRates,
            TerraQuery::ContractInfo => treasury@ is ContractInfo,
        },
{
}

/// A message to the router or to a token contract is seen with all its parts.
pub proof fn every_part_of_a_message_is_seen(router: RouterMsg, cw20: Cw20Msg)
    ensures
        match router {
            RouterMsg::Config => router@ is Config,
            RouterMsg::SimulateSwapOperations { offer_amount, operations } => {
                &&& router@ matches RouterMsgView::SimulateSwapOperations {
                    offer_amount: seen_amount,
                    operations: seen,
                }
                &&& seen_amount == offer_amount
                &&& seen.len() == operations@.len()
                &&& forall|i: int| 0 <= i < seen.len() ==> #[trigger] seen[i] == operations@[i]@
            },
        },
        match cw20 {
            Cw20Msg::Balance { address } => cw20@ == (Cw20MsgView::Balance { address: address@ }),
            _ => !(cw20@ is Balance),
        },
        router_msg_view(Some(router)) == Some(router@),
        router_msg_view(None) is None,
        cw20_msg_view(Some(cw20)) == Some(cw20@),
        cw20_msg_view(None) is None,
{
}

/// A reply is seen with all its parts: the text of an answer, or the kind and the parts of an
/// error.
pub proof fn every_part_of_a_reply_is_seen(reply: QuerierResult)
    ensures
        match reply {
            Ok(Ok(data)) => reply_view(reply) == Ok::<Result<Seq<u8>, Seq<char>>, SystemErrorView>(
                Ok(data@),
            ),
            Ok(Err(message)) => reply_view(reply) == Ok::<
                Result<Seq<u8>, Seq<char>>,
                SystemErrorView,
            >(Err(message@)),
            Err(SystemError::InvalidRequest { error, request }) => reply_view(reply) == Err::<
                Result<Seq<u8>, Seq<char>>,
                SystemErrorView,
            >(SystemErrorView::InvalidRequest { error: error@, request: request@ }),
            Err(SystemError::UnsupportedRequest { kind }) => reply_view(reply) == Err::<
                Result<Seq<u8>, Seq<char>>,
                SystemErrorView,
            >(SystemErrorView::UnsupportedRequest { kind: kind@ }),
        },
        passed_reply_view(Some(reply)) == Some(reply_view(reply)),
        passed_reply_view(None) is None,
{
}

/// What was read of an address or of a list of coins is seen as it is.
pub proof fn what_was_read_is_seen(address: String, coins: Vec<Coin>)
    ensures
        address_view(Some(address)) == Some(address@),
        address_view(None) is None,
        read_coins_view(Some(coins)) == Some(coins_view(coins@)),
        read_coins_view(None) is None,
{
}

} // verus!
