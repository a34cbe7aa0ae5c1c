//! What is read from and written to the wire: JSON, by way of the crates that define the
//! messages.
use cosmwasm_std::BankQuery::{AllBalances, Balance};
use cosmwasm_std::QueryRequest::{Bank, Custom, Wasm};
use cosmwasm_std::WasmQuery::{Raw, Smart};
use cosmwasm_std::{from_binary, from_slice, to_binary, Binary, Fraction, Uint128};
use cosmwasm_std::Decimal as StdDecimal;
use cw20::{BalanceResponse, Cw20QueryMsg, TokenInfoResponse};
use terra_cosmwasm::TerraQuery::{ContractInfo, ExchangeRates, Swap, TaxCap, TaxRate};
use terra_cosmwasm::TerraRoute::{Market, Oracle, Treasury, Wasm as WasmRoute};
use terra_cosmwasm::{TaxCapResponse, TaxRateResponse, TerraQueryWrapper};
use terraswap::asset::AssetInfo as StdAssetInfo;
use terraswap::router::SwapOperation::{NativeSwap, TerraSwap};
use terraswap::router::{QueryMsg, SimulateSwapOperationsResponse};
use vstd::prelude::*;

use crate::json::{decimal_field_json, number_field_json, number_json, token_info_json};
use crate::types::QueryRequest::{Bank as BankRequest, Custom as CustomRequest};
use crate::types::QueryRequest::{WasmRaw, WasmSmart};
use crate::types::{cw20_msg_view, request_view, router_msg_view};
use crate::types::{AssetInfo, BankQuery, Cw20Msg, Cw20MsgView, Decimal, QueryRequest, RequestView};
use crate::types::{RouterMsg, RouterMsgView, SwapOperation, TerraQuery, TerraRoute};

verus! {

/// The request that a JSON text holds, if it holds one.
pub uninterp spec fn request_of(text: Seq<u8>) -> Option<RequestView>;

/// The message to the swap router that a JSON text holds, if it holds one.
pub uninterp spec fn router_msg_of(text: Seq<u8>) -> Option<RouterMsgView>;

/// The message to a token contract that a JSON text holds, if it holds one.
pub uninterp spec fn cw20_msg_of(text: Seq<u8>) -> Option<Cw20MsgView>;

/// Reads a request with `cosmwasm_std::from_slice`. What comes back depends on the text alone;
/// `None` stands for its error. The text is read by recursion, so the stack bounds how deep it can
/// be nested. The request's type is marked as one that may grow: with the features that it is
/// built with here the arms name all of its variants.
#[verifier::external_body]
pub(crate) fn read_request(text: &[u8]) -> (request: Option<QueryRequest>)
    ensures
        request_view(request) == request_of(text@),
{
    Some(match from_slice(text).ok()? {
        Bank(Balance { address, denom }) => BankRequest(BankQuery::Balance { address, denom }),
        Bank(AllBalances { address }) => BankRequest(BankQuery::AllBalances { address }),
        Wasm(Raw { contract_addr, key }) => WasmRaw { contract_addr, key: key.0 },
        Wasm(Smart { contract_addr, msg }) => WasmSmart { contract_addr, msg: msg.0 },
        Custom(TerraQueryWrapper { route, query_data }) => CustomRequest {
            route: match route { Market => TerraRoute::Market, Treasury => TerraRoute::Treasury,
                Oracle => TerraRoute::Oracle, WasmRoute => TerraRoute::Wasm },
            query_data: match query_data { Swap { .. } => TerraQuery::Swap,
                TaxRate {} => TerraQuery::TaxRate, TaxCap { denom } => TerraQuery::TaxCap { denom },
                ExchangeRates { .. } => TerraQuery::ExchangeRates,
                ContractInfo { .. } => TerraQuery::ContractInfo } },
        _ => return None,
    })
}

/// Reads a message to the swap router with `cosmwasm_std::from_binary`. What comes back depends
/// on the text alone; `None` stands for its error. The text is read by recursion, so the stack
/// bounds how deep it can be nested.
#[verifier::external_body]
pub(crate) fn read_router_msg(text: &[u8]) -> (msg: Option<RouterMsg>)
    ensures
        router_msg_view(msg) == router_msg_of(text@),
{
    let asset = |info| match info {
        StdAssetInfo::Token { contract_addr } => AssetInfo::Token { contract_addr },
        StdAssetInfo::NativeToken { denom } => AssetInfo::NativeToken { denom },
    };
    let operation = |op| match op {
        NativeSwap { offer_denom, ask_denom } => SwapOperation::NativeSwap { offer_denom, ask_denom },
        TerraSwap { offer_asset_info: offer, ask_asset_info: ask } =>
            SwapOperation::TerraSwap { offer_asset_info: asset(offer), ask_asset_info: asset(ask) },
    };
    Some(match from_binary(&Binary::from(text)).ok()? {
        QueryMsg::Config {} => RouterMsg::Config,
        QueryMsg::SimulateSwapOperations { offer_amount: offer, operations: ops } =>
            RouterMsg::SimulateSwapOperations { offer_amount: offer.u128(),
                operations: ops.into_iter().map(operation).collect() },
    })
}

/// Reads a message to a token contract with `cosmwasm_std::from_binary`. What comes back depends
/// on the text alone; `None` stands for its error. The text is read by recursion, so the stack
/// bounds how deep it can be nested.
#[verifier::external_body]
pub(crate) fn read_cw20_msg(text: &[u8]) -> (msg: Option<Cw20Msg>)
    ensures
        cw20_msg_view(msg) == cw20_msg_of(text@),
{
    Some(match from_binary(&Binary::from(text)).ok()? {
        Cw20QueryMsg::Balance { address } => Cw20Msg::Balance { address },
        Cw20QueryMsg::TokenInfo {} => Cw20Msg::TokenInfo,
        Cw20QueryMsg::Allowance { .. } => Cw20Msg::Allowance,
        Cw20QueryMsg::Minter {} => Cw20Msg::Minter,
        Cw20QueryMsg::MarketingInfo {} => Cw20Msg::MarketingInfo,
        Cw20QueryMsg::DownloadLogo {} => Cw20Msg::DownloadLogo,
        Cw20QueryMsg::AllAllowances { .. } => Cw20Msg::AllAllowances,
        Cw20QueryMsg::AllAccounts { .. } => Cw20Msg::AllAccounts,
    })
}

/// Writes a `terra_cosmwasm::TaxRateResponse` with `cosmwasm_std::to_binary`: an object with the
/// rate in decimal notation.
#[verifier::external_body]
pub(crate) fn tax_rate_reply(rate: Decimal) -> (text: Vec<u8>)
    ensures
        text@ == decimal_field_json("rate"@, rate.atomics as nat),
{
    let rate = StdDecimal::from_ratio(rate.atomics, StdDecimal::one().denominator());
    to_binary(&TaxRateResponse { rate }).unwrap().0
}

/// Writes a `terra_cosmwasm::TaxCapResponse` with `cosmwasm_std::to_binary`: an object with the
/// cap.
#[verifier::external_body]
pub(crate) fn tax_cap_reply(cap: u128) -> (text: Vec<u8>)
    ensures
        text@ == number_field_json("cap"@, cap),
{
    to_binary(&TaxCapResponse { cap: Uint128::new(cap) }).unwrap().0
}

/// Writes a `terraswap::router::SimulateSwapOperationsResponse` with `cosmwasm_std::to_binary`:
/// an object with the amount.
#[verifier::external_body]
pub(crate) fn simulation_reply(amount: u128) -> (text: Vec<u8>)
    ensures
        text@ == number_field_json("amount"@, amount),
{
    to_binary(&SimulateSwapOperationsResponse { amount: Uint128::new(amount) }).unwrap().0
}

/// Writes a `cw20::BalanceResponse` with `cosmwasm_std::to_binary`: an object with the balance.
#[verifier::external_body]
pub(crate) fn cw20_balance_reply(balance: u128) -> (text: Vec<u8>)
    ensures
        text@ == number_field_json("balance"@, balance),
{
    to_binary(&BalanceResponse { balance: Uint128::new(balance) }).unwrap().0
}

/// Writes a balance as it is stored, a `cosmwasm_std::Uint128`, with `cosmwasm_std::to_binary`:
/// the number as a string.
#[verifier::external_body]
pub(crate) fn stored_balance_reply(balance: u128) -> (text: Vec<u8>)
    ensures
        text@ == number_json(balance),
{
    to_binary(&Uint128::new(balance)).unwrap().0
}

/// Writes a `cw20::TokenInfoResponse` with `cosmwasm_std::to_binary`: an object with the four
/// fields, the two texts escaped.
#[verifier::external_body]
pub(crate) fn token_info_reply(
    name: String,
    symbol: String,
    decimals: u8,
    total_supply: u128,
) -> (text: Vec<u8>)
    ensures
        text@ == token_info_json(name@, symbol@, decimals, total_supply),
{
    let total_supply = Uint128::new(total_supply);
    to_binary(&TokenInfoResponse { name, symbol, decimals, total_supply }).unwrap().0
}

/// Shows an asset by the `Display` of `terraswap::asset::AssetInfo`: a token by its contract
/// address, a native token by its denomination.
#[verifier::external_body]
pub(crate) fn asset_info_to_string(info: &AssetInfo) -> (name: String)
    ensures
        name@ == info@.name(),
{
    match info.clone() {
        AssetInfo::Token { contract_addr } => StdAssetInfo::Token { contract_addr }.to_string(),
        AssetInfo::NativeToken { denom } => StdAssetInfo::NativeToken { denom }.to_string(),
    }
}

} // verus!
