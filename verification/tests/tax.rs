use staking_mock::mock_querier::{custom_deps, WasmMockQuerier};
use staking_mock::types::{Decimal, QuerierResult, SystemError, TerraQuery, TerraRoute};

fn text(reply: QuerierResult) -> String {
    String::from_utf8(reply.unwrap().unwrap()).unwrap()
}

fn rate(atomics: u128) -> String {
    let mut querier = custom_deps().querier;
    querier.with_tax(Decimal { atomics }, &[]);
    text(querier.query_tax_rate())
}

fn cap(querier: &WasmMockQuerier, denom: &str) -> String {
    text(querier.query_tax_cap(&denom.to_string()))
}

#[test]
fn there_is_no_tax_at_first() {
    let querier = custom_deps().querier;
    assert_eq!(text(querier.query_tax_rate()), r#"{"rate":"0"}"#);
    assert_eq!(cap(&querier, "uusd"), r#"{"cap":"0"}"#);
}

#[test]
fn rates_in_decimal_notation() {
    assert_eq!(rate(0), r#"{"rate":"0"}"#);
    assert_eq!(rate(10_000_000_000_000_000), r#"{"rate":"0.01"}"#);
    assert_eq!(rate(1_000_000_000_000_000_000), r#"{"rate":"1"}"#);
    assert_eq!(rate(1_500_000_000_000_000_000), r#"{"rate":"1.5"}"#);
    assert_eq!(rate(120_000_000_000_000_000_000), r#"{"rate":"120"}"#);
    assert_eq!(rate(1), r#"{"rate":"0.000000000000000001"}"#);
    assert_eq!(rate(u128::MAX), r#"{"rate":"340282366920938463463.374607431768211455"}"#);
}

#[test]
fn caps_that_were_set_are_answered() {
    let mut querier = custom_deps().querier;
    let caps = [("uusd", &1_000_000), ("ukrw", &5), ("ukrw", &u128::MAX)];
    querier.with_tax(Decimal { atomics: 7 }, &caps);
    assert_eq!(cap(&querier, "uusd"), r#"{"cap":"1000000"}"#);
    assert_eq!(cap(&querier, "ukrw"), r#"{"cap":"340282366920938463463374607431768211455"}"#);
    assert_eq!(cap(&querier, "uluna"), r#"{"cap":"0"}"#);
    querier.with_tax(Decimal { atomics: 7 }, &[("uluna", &3)]);
    assert_eq!(cap(&querier, "uusd"), r#"{"cap":"0"}"#);
    assert_eq!(cap(&querier, "uluna"), r#"{"cap":"3"}"#);
}

#[test]
fn other_changes_leave_the_tax() {
    let mut querier = custom_deps().querier;
    querier.with_tax(Decimal { atomics: 10_000_000_000_000_000 }, &[("uusd", &9)]);
    querier.with_token_balances(&[("uusd", &[("alice", &5)])]);
    querier.with_terraswap_price("uusd".to_string(), "ukrw".to_string(), 0);
    querier.with_balance(&[("uusd", &[])]);
    assert_eq!(text(querier.query_tax_rate()), r#"{"rate":"0.01"}"#);
    assert_eq!(cap(&querier, "uusd"), r#"{"cap":"9"}"#);
}

#[test]
fn the_treasury_is_asked() {
    let mut querier = custom_deps().querier;
    querier.with_tax(Decimal { atomics: 10_000_000_000_000_000 }, &[("uusd", &9)]);
    let reply = querier.handle_custom(TerraRoute::Treasury, &TerraQuery::TaxRate);
    assert_eq!(text(reply), r#"{"rate":"0.01"}"#);
    let query = TerraQuery::TaxCap { denom: "uusd".to_string() };
    assert_eq!(text(querier.handle_custom(TerraRoute::Treasury, &query)), r#"{"cap":"9"}"#);
}

#[test]
fn the_treasury_refuses_other_queries() {
    let querier = custom_deps().querier;
    let refusal = Err(SystemError::UnsupportedRequest {
        kind: "handle_custom_treasury".to_string(),
    });
    for query in [TerraQuery::Swap, TerraQuery::ExchangeRates, TerraQuery::ContractInfo] {
        assert_eq!(querier.handle_custom(TerraRoute::Treasury, &query), refusal);
        assert_eq!(querier.handle_custom_treasury(&query), refusal);
    }
}

#[test]
fn other_modules_are_not_supported() {
    let querier = custom_deps().querier;
    let refusal = Err(SystemError::UnsupportedRequest { kind: "handle_custom".to_string() });
    for route in [TerraRoute::Market, TerraRoute::Oracle, TerraRoute::Wasm] {
        assert_eq!(querier.handle_custom(route, &TerraQuery::TaxRate), refusal);
    }
}
