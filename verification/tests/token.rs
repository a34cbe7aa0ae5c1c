use cosmwasm_std::testing::MockApi;
use cosmwasm_std::Api;
use staking_mock::length_prefix::to_length_prefixed;
use staking_mock::mock_querier::{answer_stored_balance, custom_deps, WasmMockQuerier};
use staking_mock::string_map::StringMap;
use staking_mock::tokens::{
    balances_to_map, caps_to_map, credited_tokens, debited_tokens, powers_to_map, total_supply,
};
use staking_mock::types::{Cw20Msg, Decimal, QuerierResult, QueryRequest, SystemError};

fn text(reply: QuerierResult) -> String {
    String::from_utf8(reply.unwrap().unwrap()).unwrap()
}

fn invalid(error: &str, request: &[u8]) -> QuerierResult {
    Err(SystemError::InvalidRequest { error: error.to_string(), request: request.to_vec() })
}

fn balance(querier: &WasmMockQuerier, contract: &str, address: &str) -> String {
    let msg = Cw20Msg::Balance { address: address.to_string() };
    text(querier.answer_cw20_msg(&contract.to_string(), Some(msg)).unwrap())
}

fn balance_key(address: &str) -> Vec<u8> {
    let mut key = to_length_prefixed(b"balance");
    key.extend_from_slice(MockApi::default().addr_canonicalize(address).unwrap().as_slice());
    key
}

fn supply(querier: &WasmMockQuerier, contract: &str) -> String {
    text(querier.handle_wasm_raw(&contract.to_string(), &to_length_prefixed(b"token_info")))
}

fn querier_with_tokens() -> WasmMockQuerier {
    let mut querier = custom_deps().querier;
    querier.with_token_balances(&[
        ("tok", &[("alice", &5), ("bobby", &7)]),
        ("other", &[("alice", &11)]),
        ("empty", &[]),
    ]);
    querier
}

#[test]
fn balances_that_were_set_are_answered() {
    let querier = querier_with_tokens();
    assert_eq!(balance(&querier, "tok", "alice"), r#"{"balance":"5"}"#);
    assert_eq!(balance(&querier, "tok", "bobby"), r#"{"balance":"7"}"#);
    assert_eq!(balance(&querier, "other", "alice"), r#"{"balance":"11"}"#);
    assert_eq!(balance(&querier, "other", "bobby"), r#"{"balance":"0"}"#);
    assert_eq!(balance(&querier, "empty", "alice"), r#"{"balance":"0"}"#);
}

#[test]
fn setting_balances_forgets_the_ones_before() {
    let mut querier = querier_with_tokens();
    querier.with_token_balances(&[("tok", &[("carol", &1)])]);
    assert_eq!(balance(&querier, "tok", "carol"), r#"{"balance":"1"}"#);
    assert_eq!(balance(&querier, "tok", "alice"), r#"{"balance":"0"}"#);
    let reply = querier.handle_wasm_raw(&"other".to_string(), &balance_key("alice"));
    assert!(reply.is_err());
}

#[test]
fn of_two_entries_for_a_token_or_an_account_the_last_counts() {
    let mut querier = custom_deps().querier;
    querier.with_token_balances(&[
        ("tok", &[("bobby", &9)]),
        ("tok", &[("alice", &5), ("alice", &6)]),
    ]);
    assert_eq!(balance(&querier, "tok", "alice"), r#"{"balance":"6"}"#);
    assert_eq!(balance(&querier, "tok", "bobby"), r#"{"balance":"0"}"#);
}

#[test]
fn balances_are_added() {
    let mut querier = querier_with_tokens();
    querier.plus_token_balances(&[
        ("tok", &[("alice", &10), ("carol", &1), ("alice", &100)]),
        ("new", &[("alice", &3)]),
        ("tok", &[("bobby", &1)]),
    ]);
    assert_eq!(balance(&querier, "tok", "alice"), r#"{"balance":"115"}"#);
    assert_eq!(balance(&querier, "tok", "bobby"), r#"{"balance":"8"}"#);
    assert_eq!(balance(&querier, "tok", "carol"), r#"{"balance":"1"}"#);
    assert_eq!(balance(&querier, "new", "alice"), r#"{"balance":"3"}"#);
    assert_eq!(balance(&querier, "other", "alice"), r#"{"balance":"11"}"#);
}

#[test]
fn a_balance_can_be_the_largest_one_and_no_more() {
    let mut querier = querier_with_tokens();
    assert!(!querier.try_plus_token_balances(&[
        ("tok", &[("bobby", &1)]),
        ("tok", &[("alice", &(u128::MAX - 4))]),
    ]));
    assert_eq!(balance(&querier, "tok", "bobby"), r#"{"balance":"7"}"#);
    assert!(querier.try_plus_token_balances(&[("tok", &[("alice", &(u128::MAX - 5))])]));
    let most = r#"{"balance":"340282366920938463463374607431768211455"}"#;
    assert_eq!(balance(&querier, "tok", "alice"), most);
}

#[test]
fn balances_are_taken_away() {
    let mut querier = querier_with_tokens();
    querier.minus_token_balances(&[
        ("tok", &[("alice", &2), ("alice", &3), ("carol", &0)]),
        ("new", &[]),
    ]);
    assert_eq!(balance(&querier, "tok", "alice"), r#"{"balance":"0"}"#);
    assert_eq!(balance(&querier, "tok", "bobby"), r#"{"balance":"7"}"#);
    assert_eq!(balance(&querier, "new", "alice"), r#"{"balance":"0"}"#);
}

#[test]
fn more_than_a_balance_cannot_be_taken() {
    let mut querier = querier_with_tokens();
    assert!(!querier.try_minus_token_balances(&[("tok", &[("bobby", &1), ("alice", &6)])]));
    assert!(!querier.try_minus_token_balances(&[("tok", &[("carol", &1)])]));
    assert!(!querier.try_minus_token_balances(&[("new", &[("alice", &1)])]));
    assert_eq!(balance(&querier, "tok", "alice"), r#"{"balance":"5"}"#);
    assert_eq!(balance(&querier, "tok", "bobby"), r#"{"balance":"7"}"#);
    assert!(querier.try_minus_token_balances(&[("tok", &[("bobby", &1), ("alice", &5)])]));
}

#[test]
fn taking_balances_away_undoes_adding_them() {
    let mut querier = querier_with_tokens();
    let two: u128 = 2;
    let accounts = [("alice", &two), ("carol", &two), ("alice", &two)];
    let moved: [(&str, &[(&str, &u128)]); 1] = [("tok", &accounts)];
    querier.plus_token_balances(&moved);
    querier.minus_token_balances(&moved);
    assert_eq!(balance(&querier, "tok", "alice"), r#"{"balance":"5"}"#);
    assert_eq!(balance(&querier, "tok", "carol"), r#"{"balance":"0"}"#);
}

#[test]
fn the_supply_is_the_sum_of_the_balances() {
    let mut querier = querier_with_tokens();
    let info = r#"{"name":"tokToken","symbol":"TOK","decimals":6,"total_supply":"12"}"#;
    assert_eq!(supply(&querier, "tok"), info);
    let info = r#"{"name":"emptyToken","symbol":"TOK","decimals":6,"total_supply":"0"}"#;
    assert_eq!(supply(&querier, "empty"), info);
    querier.plus_token_balances(&[("tok", &[("alice", &10), ("carol", &1)])]);
    let info = r#"{"name":"tokToken","symbol":"TOK","decimals":6,"total_supply":"23"}"#;
    assert_eq!(supply(&querier, "tok"), info);
    querier.minus_token_balances(&[("tok", &[("alice", &4)])]);
    let info = r#"{"name":"tokToken","symbol":"TOK","decimals":6,"total_supply":"19"}"#;
    assert_eq!(supply(&querier, "tok"), info);
}

#[test]
fn a_supply_changes_by_the_amount_and_no_other_does() {
    let mut querier = querier_with_tokens();
    let other = supply(&querier, "other");
    querier.plus_token_balances(&[("tok", &[("carol", &(u128::MAX - 12))])]);
    let info = format!(
        r#"{{"name":"tokToken","symbol":"TOK","decimals":6,"total_supply":"{}"}}"#,
        u128::MAX,
    );
    assert_eq!(supply(&querier, "tok"), info);
    assert_eq!(supply(&querier, "other"), other);
    querier.minus_token_balances(&[("tok", &[("carol", &(u128::MAX - 12))])]);
    let info = r#"{"name":"tokToken","symbol":"TOK","decimals":6,"total_supply":"12"}"#;
    assert_eq!(supply(&querier, "tok"), info);
    assert_eq!(supply(&querier, "other"), other);
}

#[test]
fn the_name_of_a_token_is_escaped() {
    let mut querier = custom_deps().querier;
    querier.with_token_balances(&[("a\"b\n", &[("alice", &1)])]);
    let info = r#"{"name":"a\"b\nToken","symbol":"TOK","decimals":6,"total_supply":"1"}"#;
    assert_eq!(supply(&querier, "a\"b\n"), info);
}

#[test]
fn a_supply_that_is_too_large_is_not_answered() {
    let mut querier = custom_deps().querier;
    querier.with_token_balances(&[("tok", &[("alice", &u128::MAX), ("bobby", &1)])]);
    let step = |amount: u128, _: u64| amount;
    let contract_addr = "tok".to_string();
    let key = to_length_prefixed(b"token_info");
    let request = QueryRequest::WasmRaw { contract_addr: contract_addr.clone(), key };
    assert!(!querier.can_answer(&request));
    assert_eq!(querier.try_handle_query(&request, &step), None);
    let request = QueryRequest::WasmRaw { contract_addr, key: balance_key("bobby") };
    assert!(querier.can_answer(&request));
    assert_eq!(text(querier.try_handle_query(&request, &step).unwrap()), "\"1\"");
}

#[test]
fn only_the_description_key_asks_for_the_description() {
    let querier = querier_with_tokens();
    let contract = "tok".to_string();
    assert!(querier.query_token_info(&contract, &balance_key("alice")).is_none());
    assert!(querier.query_token_info(&contract, b"token_info").is_none());
    assert!(querier.query_token_info(&contract, b"").is_none());
    assert!(querier.query_token_info(&contract, b"\x00\x0atoken_info").is_some());
}

#[test]
fn stored_balances_are_answered() {
    let querier = querier_with_tokens();
    let contract = "tok".to_string();
    let reply = querier.handle_wasm_raw(&contract, &balance_key("alice"));
    assert_eq!(text(reply), "\"5\"");
    assert_eq!(text(querier.query_balance(&contract, &balance_key("bobby"))), "\"7\"");
}

#[test]
fn the_start_of_a_balance_key_is_not_looked_at() {
    let querier = querier_with_tokens();
    let mut key = balance_key("alice");
    key[..9].copy_from_slice(b"123456789");
    assert_eq!(text(querier.handle_wasm_raw(&"tok".to_string(), &key)), "\"5\"");
}

#[test]
fn stored_balances_that_are_not_there() {
    let querier = querier_with_tokens();
    let key = balance_key("carol");
    let reply = querier.handle_wasm_raw(&"tok".to_string(), &key);
    assert_eq!(reply, invalid("Balance not found", &key));
}

#[test]
fn contracts_that_are_not_listed() {
    let querier = querier_with_tokens();
    let contract = "nope".to_string();
    let refusal = "No balance info exists for the contract nope";
    let key = to_length_prefixed(b"token_info");
    assert_eq!(querier.handle_wasm_raw(&contract, &key), invalid(refusal, &key));
    let key = balance_key("alice");
    assert_eq!(querier.handle_wasm_raw(&contract, &key), invalid(refusal, &key));
}

#[test]
fn malformed_addresses_are_refused() {
    let querier = querier_with_tokens();
    let contract = "tok".to_string();
    let key = to_length_prefixed(b"balance");
    let reply = querier.handle_wasm_raw(&contract, &key);
    assert_eq!(reply, invalid("Parsing query request", &key));
    let mut key = balance_key("alice");
    key.push(0);
    let reply = querier.handle_wasm_raw(&contract, &key);
    assert_eq!(reply, invalid("Parsing query request", &key));
    let mut key = to_length_prefixed(b"balance");
    key.extend_from_slice(&[0xff; 54]);
    let reply = querier.handle_wasm_raw(&contract, &key);
    assert_eq!(reply, invalid("Parsing query request", &key));
}

#[test]
fn keys_that_are_too_short_are_not_answered() {
    let querier = querier_with_tokens();
    let step = |amount: u128, _: u64| amount;
    for key in [b"".to_vec(), b"12345678".to_vec()] {
        let request = QueryRequest::WasmRaw { contract_addr: "tok".to_string(), key };
        assert_eq!(querier.try_handle_query(&request, &step), None);
    }
}

#[test]
fn what_was_read_of_the_address_decides() {
    let accounts = caps_to_map(&[("alice", &5)]);
    let key = b"key";
    let reply = answer_stored_balance(&accounts, key, Some("alice".to_string()));
    assert_eq!(text(reply), "\"5\"");
    let reply = answer_stored_balance(&accounts, key, Some("bobby".to_string()));
    assert_eq!(reply, invalid("Balance not found", key));
    let reply = answer_stored_balance(&accounts, key, None);
    assert_eq!(reply, invalid("Parsing query request", key));
}

#[test]
fn messages_of_a_token_contract_that_are_not_supported() {
    let querier = querier_with_tokens();
    let refusal = Err(SystemError::UnsupportedRequest {
        kind: "handle_wasm_smart:cw20".to_string(),
    });
    for msg in [
        Cw20Msg::TokenInfo,
        Cw20Msg::Allowance,
        Cw20Msg::Minter,
        Cw20Msg::MarketingInfo,
        Cw20Msg::DownloadLogo,
        Cw20Msg::AllAllowances,
        Cw20Msg::AllAccounts,
    ] {
        let reply = querier.answer_cw20_msg(&"nope".to_string(), Some(msg));
        assert_eq!(reply, Some(refusal.clone()));
    }
    assert_eq!(querier.answer_cw20_msg(&"tok".to_string(), None), None);
}

#[test]
fn messages_of_a_token_contract_are_read() {
    let querier = querier_with_tokens();
    let contract = "tok".to_string();
    let reply = querier.handle_cw20(&contract, br#"{"balance":{"address":"bobby"}}"#);
    assert_eq!(text(reply.unwrap()), r#"{"balance":"7"}"#);
    let reply = querier.handle_cw20(&contract, br#"{"token_info":{}}"#);
    assert!(reply.unwrap().is_err());
    let all = br#"{"all_accounts":{"start_after":null,"limit":3}}"#;
    assert!(querier.handle_cw20(&contract, all).unwrap().is_err());
    assert_eq!(querier.handle_cw20(&contract, br#"{"nope":{}}"#), None);
    assert_eq!(querier.handle_cw20(&contract, b""), None);
}

#[test]
fn supplies_of_maps() {
    assert_eq!(total_supply(&StringMap::new()), Some(0));
    assert_eq!(total_supply(&caps_to_map(&[("a", &1), ("b", &2), ("a", &4)])), Some(6));
    assert_eq!(total_supply(&caps_to_map(&[("a", &u128::MAX)])), Some(u128::MAX));
    assert_eq!(total_supply(&caps_to_map(&[("a", &u128::MAX), ("b", &1)])), None);
}

#[test]
fn maps_of_balances() {
    let map = balances_to_map(&[("tok", &[("alice", &5)]), ("other", &[])]);
    let accounts = map.get(&"tok".to_string()).unwrap();
    assert_eq!(accounts.get(&"alice".to_string()), Some(&5));
    assert_eq!(accounts.get(&"bobby".to_string()), None);
    assert!(map.get(&"other".to_string()).unwrap().entries().is_empty());
    assert!(!map.contains_key(&"nope".to_string()));
    let more = credited_tokens(&map, &[("tok", &[("alice", &1)])]).unwrap();
    let accounts = more.get(&"tok".to_string()).unwrap();
    assert_eq!(accounts.get(&"alice".to_string()), Some(&6));
    assert!(debited_tokens(&more, &[("tok", &[("alice", &7)])]).is_none());
}

#[test]
fn maps_of_powers() {
    let (alice, bobby) = ("alice".to_string(), "bobby".to_string());
    let (half, one) = (
        Decimal { atomics: 500_000_000_000_000_000 },
        Decimal { atomics: 1_000_000_000_000_000_000 },
    );
    let map = powers_to_map(&[(&alice, &half), (&bobby, &half), (&alice, &one)]);
    assert_eq!(map.get(&alice), Some(&one));
    assert_eq!(map.get(&bobby), Some(&half));
    assert_eq!(map.get(&"carol".to_string()), None);
}

#[test]
fn string_maps() {
    let mut map: StringMap<u128> = StringMap::default();
    map.insert("a".to_string(), 1);
    map.insert("b".to_string(), 2);
    map.insert("a".to_string(), 3);
    assert_eq!(map.entries().len(), 2);
    assert_eq!(map.get(&"a".to_string()), Some(&3));
    let mut copy = map.clone();
    assert_eq!(copy.remove(&"a".to_string()), Some(3));
    assert_eq!(copy.remove(&"a".to_string()), None);
    assert!(!copy.contains_key(&"a".to_string()));
    assert!(map.contains_key(&"a".to_string()));
    assert_eq!(copy.get(&"b".to_string()), Some(&2));
}
