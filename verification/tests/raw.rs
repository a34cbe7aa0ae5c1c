use cosmwasm_std::Binary;
use staking_mock::mock_querier::{custom_deps, WasmMockQuerier};
use staking_mock::types::{Coin, Decimal, QuerierResult, SystemError};

fn step(amount: u128, price: u64) -> u128 {
    (amount as f64 * f64::from_bits(price)) as u128
}

fn text(reply: QuerierResult) -> String {
    String::from_utf8(reply.unwrap().unwrap()).unwrap()
}

fn smart(contract: &str, msg: &str) -> String {
    let msg = Binary::from(msg.as_bytes()).to_base64();
    format!(r#"{{"wasm":{{"smart":{{"contract_addr":"{}","msg":"{}"}}}}}}"#, contract, msg)
}

fn raw(contract: &str, key: &[u8]) -> String {
    let key = Binary::from(key).to_base64();
    format!(r#"{{"wasm":{{"raw":{{"contract_addr":"{}","key":"{}"}}}}}}"#, contract, key)
}

fn querier() -> WasmMockQuerier {
    let mut querier = custom_deps().querier;
    let coin = Coin { denom: "uusd".to_string(), amount: 5 };
    querier.plus_native_balance("bob", vec![coin]);
    querier.with_tax(Decimal { atomics: 10_000_000_000_000_000 }, &[("uusd", &9)]);
    querier.with_token_balances(&[("tok", &[("alice", &12)])]);
    let price: f64 = 1.5;
    querier.with_terraswap_price("uusd".to_string(), "tok".to_string(), price.to_bits());
    querier
}

fn ask(request: &str) -> String {
    text(querier().raw_query(request.as_bytes(), &step))
}

#[test]
fn bank_queries() {
    let request = r#"{"bank":{"all_balances":{"address":"bob"}}}"#;
    assert_eq!(ask(request), r#"{"amount":[{"denom":"uusd","amount":"5"}]}"#);
    let request = r#"{"bank":{"balance":{"address":"bob","denom":"uusd"}}}"#;
    assert_eq!(ask(request), r#"{"amount":{"denom":"uusd","amount":"5"}}"#);
}

#[test]
fn treasury_queries() {
    let request = r#"{"custom":{"route":"treasury","query_data":{"tax_rate":{}}}}"#;
    assert_eq!(ask(request), r#"{"rate":"0.01"}"#);
    let request = r#"{"custom":{"route":"treasury","query_data":{"tax_cap":{"denom":"uusd"}}}}"#;
    assert_eq!(ask(request), r#"{"cap":"9"}"#);
}

#[test]
fn custom_queries_that_are_not_supported() {
    let unsupported = |request: &str, kind: &str| {
        let reply = querier().raw_query(request.as_bytes(), &step);
        assert_eq!(reply, Err(SystemError::UnsupportedRequest { kind: kind.to_string() }));
    };
    for route in ["market", "oracle", "wasm"] {
        let request =
            format!(r#"{{"custom":{{"route":"{}","query_data":{{"tax_rate":{{}}}}}}}}"#, route);
        unsupported(&request, "handle_custom");
    }
    for data in [
        r#"{"swap":{"offer_coin":{"denom":"uusd","amount":"1"},"ask_denom":"ukrw"}}"#,
        r#"{"exchange_rates":{"base_denom":"uusd","quote_denoms":[]}}"#,
        r#"{"contract_info":{"contract_address":"tok"}}"#,
    ] {
        let request = format!(r#"{{"custom":{{"route":"treasury","query_data":{}}}}}"#, data);
        unsupported(&request, "handle_custom_treasury");
    }
}

#[test]
fn storage_queries() {
    let info = r#"{"name":"tokToken","symbol":"TOK","decimals":6,"total_supply":"12"}"#;
    assert_eq!(ask(&raw("tok", b"\x00\x0atoken_info")), info);
    let reply = querier().raw_query(raw("nope", b"\x00\x0atoken_info").as_bytes(), &step);
    let refusal = SystemError::InvalidRequest {
        error: "No balance info exists for the contract nope".to_string(),
        request: b"\x00\x0atoken_info".to_vec(),
    };
    assert_eq!(reply, Err(refusal));
}

#[test]
fn contract_queries() {
    let request = smart("tok", r#"{"balance":{"address":"alice"}}"#);
    assert_eq!(ask(&request), r#"{"balance":"12"}"#);
    let request = smart(
        "terraswap_router",
        r#"{"simulate_swap_operations":{"offer_amount":"7","operations":[
            {"terra_swap":{"offer_asset_info":{"native_token":{"denom":"uusd"}},
                           "ask_asset_info":{"token":{"contract_addr":"tok"}}}}]}}"#,
    );
    assert_eq!(ask(&request), r#"{"amount":"10"}"#);
}

#[test]
fn requests_that_cannot_be_read() {
    for request in [
        &b""[..],
        b"{}",
        b"junk",
        b"\xff\xfe",
        br#"{"bank":{}}"#,
        br#"{"staking":{"bonded_denom":{}}}"#,
        br#"{"wasm":{"raw":{"contract_addr":"tok","key":"!"}}}"#,
        br#"{"custom":{"route":"nowhere","query_data":{"tax_rate":{}}}}"#,
    ] {
        let refusal = SystemError::InvalidRequest {
            error: "Parsing query request".to_string(),
            request: request.to_vec(),
        };
        assert_eq!(querier().raw_query(request, &step), Err(refusal.clone()));
        assert_eq!(querier().try_raw_query(request, &step), Some(Err(refusal)));
    }
}

#[test]
fn requests_for_what_is_not_held() {
    let balance = r#"{"balance":{"address":"alice"}}"#;
    let swap = r#"{"simulate_swap_operations":{"offer_amount":"7","operations":[
        {"native_swap":{"offer_denom":"tok","ask_denom":"uusd"}}]}}"#;
    for request in [smart("nope", balance), smart("terraswap_router", swap), raw("tok", b"short")] {
        assert_eq!(querier().try_raw_query(request.as_bytes(), &step), None);
    }
    let request = smart("tok", balance);
    let reply = querier().try_raw_query(request.as_bytes(), &step);
    assert_eq!(text(reply.unwrap()), r#"{"balance":"12"}"#);
}

#[test]
fn a_key_that_is_too_short_is_not_looked_up() {
    assert_eq!(querier().try_raw_query(raw("nope", b"short").as_bytes(), &step), None);
}
