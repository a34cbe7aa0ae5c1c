use staking_mock::mock_querier::{
    custom_deps, terraswap_operation_to_string, TerraswapRouterQuerier, WasmMockQuerier,
};
use staking_mock::model::TERRASWAP_ROUTER;
use staking_mock::types::{AssetInfo, QuerierResult, QueryRequest, RouterMsg};
use staking_mock::types::{SwapOperation, SystemError};

fn step(amount: u128, price: u64) -> u128 {
    (amount as f64 * f64::from_bits(price)) as u128
}

fn text(reply: QuerierResult) -> String {
    String::from_utf8(reply.unwrap().unwrap()).unwrap()
}

fn native(denom: &str) -> AssetInfo {
    AssetInfo::NativeToken { denom: denom.to_string() }
}

fn token(contract_addr: &str) -> AssetInfo {
    AssetInfo::Token { contract_addr: contract_addr.to_string() }
}

fn native_swap(offer: &str, ask: &str) -> SwapOperation {
    SwapOperation::NativeSwap { offer_denom: offer.to_string(), ask_denom: ask.to_string() }
}

fn terra_swap(offer: AssetInfo, ask: AssetInfo) -> SwapOperation {
    SwapOperation::TerraSwap { offer_asset_info: offer, ask_asset_info: ask }
}

fn set_price(querier: &mut WasmMockQuerier, offer: &str, ask: &str, price: f64) {
    querier.with_terraswap_price(offer.to_string(), ask.to_string(), price.to_bits());
}

fn querier_with_prices() -> WasmMockQuerier {
    let mut querier = custom_deps().querier;
    set_price(&mut querier, "uusd", "uluna", 0.5);
    set_price(&mut querier, "uluna", "tok", 3.0);
    set_price(&mut querier, "tok", "uusd", 1.75);
    querier
}

fn simulate(querier: &WasmMockQuerier, offer: u128, path: Vec<SwapOperation>) -> String {
    let msg = RouterMsg::SimulateSwapOperations { offer_amount: offer, operations: path };
    text(querier.answer_router_msg(Some(msg), &step).unwrap())
}

#[test]
fn assets_are_named_by_contract_or_denomination() {
    let pair = ("uusd".to_string(), "ukrw".to_string());
    assert_eq!(terraswap_operation_to_string(&native_swap("uusd", "ukrw")), pair);
    assert_eq!(terraswap_operation_to_string(&terra_swap(native("uusd"), native("ukrw"))), pair);
    let pair = ("tok".to_string(), "uusd".to_string());
    assert_eq!(terraswap_operation_to_string(&terra_swap(token("tok"), native("uusd"))), pair);
}

#[test]
fn swaps_go_by_the_price() {
    let querier = querier_with_prices();
    assert_eq!(simulate(&querier, 100, vec![native_swap("uusd", "uluna")]), r#"{"amount":"50"}"#);
    let swap = terra_swap(native("uusd"), native("uluna"));
    assert_eq!(simulate(&querier, 100, vec![swap]), r#"{"amount":"50"}"#);
    let swap = terra_swap(token("tok"), native("uusd"));
    assert_eq!(simulate(&querier, 3, vec![swap]), r#"{"amount":"5"}"#);
}

#[test]
fn swaps_are_made_one_after_another() {
    let querier = querier_with_prices();
    let first = native_swap("uusd", "uluna");
    let second = terra_swap(native("uluna"), token("tok"));
    let path = vec![first.clone(), second.clone()];
    assert_eq!(simulate(&querier, 101, path), r#"{"amount":"150"}"#);
    assert_eq!(simulate(&querier, 101, vec![first]), r#"{"amount":"50"}"#);
    assert_eq!(simulate(&querier, 50, vec![second]), r#"{"amount":"150"}"#);
}

#[test]
fn without_swaps_the_amount_stays() {
    let querier = custom_deps().querier;
    assert_eq!(simulate(&querier, 42, vec![]), r#"{"amount":"42"}"#);
    let most = r#"{"amount":"340282366920938463463374607431768211455"}"#;
    assert_eq!(simulate(&querier, u128::MAX, vec![]), most);
}

#[test]
fn the_price_that_was_set_last_is_used() {
    let mut querier = querier_with_prices();
    set_price(&mut querier, "uusd", "uluna", 2.0);
    assert_eq!(simulate(&querier, 10, vec![native_swap("uusd", "uluna")]), r#"{"amount":"20"}"#);
    let swap = terra_swap(native("uluna"), token("tok"));
    assert_eq!(simulate(&querier, 10, vec![swap]), r#"{"amount":"30"}"#);
}

#[test]
fn swaps_without_a_price_are_not_answered() {
    let querier = querier_with_prices();
    for msg in [
        r#"{"simulate_swap_operations":{"offer_amount":"1","operations":[
            {"native_swap":{"offer_denom":"uluna","ask_denom":"uusd"}}]}}"#,
        r#"{"simulate_swap_operations":{"offer_amount":"1","operations":[
            {"native_swap":{"offer_denom":"uusd","ask_denom":"uluna"}},
            {"native_swap":{"offer_denom":"uluna","ask_denom":"ukrw"}}]}}"#,
    ] {
        let request = QueryRequest::WasmSmart {
            contract_addr: TERRASWAP_ROUTER.to_string(),
            msg: msg.as_bytes().to_vec(),
        };
        assert!(!querier.can_answer(&request));
        assert_eq!(querier.try_handle_query(&request, &step), None);
    }
}

#[test]
fn messages_of_the_router_are_read() {
    let querier = querier_with_prices();
    let router = TERRASWAP_ROUTER.to_string();
    let msg = br#"{"simulate_swap_operations":{"offer_amount":"100","operations":[
        {"native_swap":{"offer_denom":"uusd","ask_denom":"uluna"}},
        {"terra_swap":{"offer_asset_info":{"native_token":{"denom":"uluna"}},
                       "ask_asset_info":{"token":{"contract_addr":"tok"}}}}]}}"#;
    let reply = querier.handle_wasm_smart_terraswap_router(&router, msg, &step);
    assert_eq!(text(reply.unwrap()), r#"{"amount":"150"}"#);
    let other = "router".to_string();
    assert_eq!(querier.handle_wasm_smart_terraswap_router(&other, msg, &step), None);
    let junk = br#"{"nope":{}}"#;
    assert_eq!(querier.handle_wasm_smart_terraswap_router(&router, junk, &step), None);
}

#[test]
fn the_router_refuses_other_messages() {
    let querier = custom_deps().querier;
    let router = TERRASWAP_ROUTER.to_string();
    let refusal = Err(SystemError::UnsupportedRequest {
        kind: "handle_wasm_smart:terraswap_router".to_string(),
    });
    let reply = querier.handle_wasm_smart_terraswap_router(&router, br#"{"config":{}}"#, &step);
    assert_eq!(reply, Some(refusal.clone()));
    assert_eq!(querier.answer_router_msg(Some(RouterMsg::Config), &step), Some(refusal));
    assert_eq!(querier.answer_router_msg(None, &step), None);
}

#[test]
fn the_router_can_be_a_token_contract_too() {
    let mut querier = custom_deps().querier;
    querier.with_token_balances(&[(TERRASWAP_ROUTER, &[("alice", &5)])]);
    let msg = br#"{"balance":{"address":"alice"}}"#;
    let reply = querier.handle_wasm_smart(&TERRASWAP_ROUTER.to_string(), msg, &step);
    assert_eq!(text(reply), r#"{"balance":"5"}"#);
}

#[test]
fn messages_that_nobody_reads_are_refused() {
    let querier = custom_deps().querier;
    let refusal = Err(SystemError::UnsupportedRequest { kind: "handle_wasm_smart".to_string() });
    for contract in [TERRASWAP_ROUTER, "tok"] {
        let reply = querier.handle_wasm_smart(&contract.to_string(), br#"{"nope":{}}"#, &step);
        assert_eq!(reply, refusal);
    }
}

#[test]
fn routers_start_without_prices() {
    let _ = TerraswapRouterQuerier::new();
    let _ = TerraswapRouterQuerier::default();
    let request = QueryRequest::WasmSmart {
        contract_addr: TERRASWAP_ROUTER.to_string(),
        msg: br#"{"simulate_swap_operations":{"offer_amount":"1","operations":[
            {"native_swap":{"offer_denom":"uusd","ask_denom":"uluna"}}]}}"#
            .to_vec(),
    };
    assert!(!custom_deps().querier.can_answer(&request));
}
