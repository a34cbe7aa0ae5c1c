use staking_mock::base::MockQuerier;
use staking_mock::coins::{credit_coins, debit_coins};
use staking_mock::mock_querier::{custom_deps, WasmMockQuerier};
use staking_mock::types::{BankQuery, Coin, QueryRequest};

fn coin(amount: u128, denom: &str) -> Coin {
    Coin { denom: denom.to_string(), amount }
}

fn ask(querier: &WasmMockQuerier, query: BankQuery) -> String {
    let step = |amount: u128, _: u64| amount;
    let reply = querier.handle_query(&QueryRequest::Bank(query), &step);
    String::from_utf8(reply.unwrap().unwrap()).unwrap()
}

fn all(querier: &WasmMockQuerier, address: &str) -> String {
    ask(querier, BankQuery::AllBalances { address: address.to_string() })
}

fn one(querier: &WasmMockQuerier, address: &str, denom: &str) -> String {
    let (address, denom) = (address.to_string(), denom.to_string());
    ask(querier, BankQuery::Balance { address, denom })
}

#[test]
fn a_fresh_querier_holds_no_coins() {
    let deps = custom_deps();
    assert_eq!(all(&deps.querier, "cosmos2contract"), r#"{"amount":[]}"#);
    assert_eq!(all(&deps.querier, "bob"), r#"{"amount":[]}"#);
    let none = r#"{"amount":{"denom":"uusd","amount":"0"}}"#;
    assert_eq!(one(&deps.querier, "bob", "uusd"), none);
}

#[test]
fn the_coins_of_the_base_are_held() {
    let bob = [coin(5, "uusd"), coin(7, "ukrw")];
    let alice = [coin(1, "uluna")];
    let base = MockQuerier::new(&[("bob", &bob), ("alice", &alice)]);
    let querier = WasmMockQuerier::new(base);
    let coins = r#"{"amount":[{"denom":"uusd","amount":"5"},{"denom":"ukrw","amount":"7"}]}"#;
    assert_eq!(all(&querier, "bob"), coins);
    assert_eq!(one(&querier, "bob", "ukrw"), r#"{"amount":{"denom":"ukrw","amount":"7"}}"#);
    assert_eq!(all(&querier, "alice"), r#"{"amount":[{"denom":"uluna","amount":"1"}]}"#);
}

#[test]
fn of_two_entries_for_an_address_the_last_counts() {
    let (first, last) = ([coin(5, "uusd")], [coin(6, "uusd")]);
    let querier = WasmMockQuerier::new(MockQuerier::new(&[("bob", &first), ("bob", &last)]));
    assert_eq!(all(&querier, "bob"), r#"{"amount":[{"denom":"uusd","amount":"6"}]}"#);
}

#[test]
fn coins_are_added_to_those_of_the_same_denomination() {
    let mut querier = custom_deps().querier;
    querier.plus_native_balance("bob", vec![coin(5, "uusd"), coin(7, "ukrw")]);
    querier.plus_native_balance("bob", vec![coin(3, "ukrw"), coin(2, "uluna"), coin(4, "ukrw")]);
    assert_eq!(
        all(&querier, "bob"),
        concat_coins(&[("uusd", "5"), ("ukrw", "14"), ("uluna", "2")]),
    );
    assert_eq!(all(&querier, "alice"), r#"{"amount":[]}"#);
}

fn concat_coins(coins: &[(&str, &str)]) -> String {
    let coins: Vec<String> = coins
        .iter()
        .map(|(denom, amount)| format!(r#"{{"denom":"{}","amount":"{}"}}"#, denom, amount))
        .collect();
    format!(r#"{{"amount":[{}]}}"#, coins.join(","))
}

#[test]
fn adding_nothing_changes_nothing() {
    let mut querier = custom_deps().querier;
    querier.plus_native_balance("bob", vec![]);
    assert_eq!(all(&querier, "bob"), r#"{"amount":[]}"#);
}

#[test]
fn the_first_coin_of_a_denomination_counts() {
    let coins = [coin(5, "uusd"), coin(9, "uusd")];
    let mut querier = WasmMockQuerier::new(MockQuerier::new(&[("bob", &coins)]));
    assert_eq!(one(&querier, "bob", "uusd"), r#"{"amount":{"denom":"uusd","amount":"5"}}"#);
    querier.plus_native_balance("bob", vec![coin(1, "uusd")]);
    assert_eq!(all(&querier, "bob"), concat_coins(&[("uusd", "6"), ("uusd", "9")]));
    querier.minus_native_balance("bob", vec![coin(2, "uusd")]);
    assert_eq!(all(&querier, "bob"), concat_coins(&[("uusd", "4"), ("uusd", "9")]));
}

#[test]
fn an_amount_can_be_the_largest_one_and_no_more() {
    let mut querier = custom_deps().querier;
    assert!(querier.try_plus_native_balance("bob", vec![coin(u128::MAX, "uusd")]));
    assert!(!querier.try_plus_native_balance("bob", vec![coin(1, "ukrw"), coin(1, "uusd")]));
    let most = "340282366920938463463374607431768211455";
    assert_eq!(all(&querier, "bob"), concat_coins(&[("uusd", most)]));
}

#[test]
fn coins_are_taken_away() {
    let mut querier = custom_deps().querier;
    querier.plus_native_balance("bob", vec![coin(5, "uusd"), coin(7, "ukrw")]);
    querier.minus_native_balance("bob", vec![coin(5, "uusd"), coin(3, "ukrw"), coin(1, "ukrw")]);
    assert_eq!(all(&querier, "bob"), concat_coins(&[("uusd", "0"), ("ukrw", "3")]));
}

#[test]
fn too_much_cannot_be_taken() {
    let mut querier = custom_deps().querier;
    querier.plus_native_balance("bob", vec![coin(5, "uusd")]);
    assert!(!querier.try_minus_native_balance("bob", vec![coin(6, "uusd")]));
    assert!(!querier.try_minus_native_balance("bob", vec![coin(3, "uusd"), coin(3, "uusd")]));
    assert!(!querier.try_minus_native_balance("bob", vec![coin(0, "ukrw")]));
    assert!(!querier.try_minus_native_balance("alice", vec![coin(1, "uusd")]));
    assert_eq!(all(&querier, "bob"), concat_coins(&[("uusd", "5")]));
    assert!(querier.try_minus_native_balance("bob", vec![coin(3, "uusd"), coin(2, "uusd")]));
    assert_eq!(all(&querier, "bob"), concat_coins(&[("uusd", "0")]));
}

#[test]
fn taking_away_undoes_adding() {
    let mut querier = custom_deps().querier;
    querier.plus_native_balance("bob", vec![coin(5, "uusd")]);
    let moved = vec![coin(2, "uusd"), coin(9, "ukrw"), coin(4, "uusd")];
    querier.plus_native_balance("bob", moved.clone());
    querier.minus_native_balance("bob", moved);
    assert_eq!(one(&querier, "bob", "uusd"), r#"{"amount":{"denom":"uusd","amount":"5"}}"#);
    assert_eq!(one(&querier, "bob", "ukrw"), r#"{"amount":{"denom":"ukrw","amount":"0"}}"#);
    assert_eq!(all(&querier, "bob"), concat_coins(&[("uusd", "5"), ("ukrw", "0")]));
}

#[test]
fn taxes_are_taken_too() {
    let mut querier = custom_deps().querier;
    querier.plus_native_balance("bob", vec![coin(100, "uusd"), coin(50, "ukrw")]);
    let taken = vec![coin(60, "uusd"), coin(10, "ukrw")];
    querier.minus_native_balance_with_tax("bob", taken, &[6, 1]);
    assert_eq!(all(&querier, "bob"), concat_coins(&[("uusd", "34"), ("ukrw", "39")]));
}

#[test]
fn luna_stops_the_taxed_debit() {
    let mut querier = custom_deps().querier;
    querier.plus_native_balance("bob", vec![coin(100, "uusd"), coin(50, "uluna")]);
    let taken = vec![coin(60, "uusd"), coin(10, "uluna"), coin(1000, "ukrw")];
    querier.minus_native_balance_with_tax("bob", taken, &[6]);
    assert_eq!(all(&querier, "bob"), concat_coins(&[("uusd", "100"), ("uluna", "50")]));
    assert!(querier.try_minus_native_balance_with_tax("bob", vec![coin(10, "uluna")], &[]));
    assert_eq!(all(&querier, "bob"), concat_coins(&[("uusd", "100"), ("uluna", "50")]));
}

#[test]
fn a_taxed_debit_that_does_not_fit_changes_nothing() {
    let mut querier = custom_deps().querier;
    querier.plus_native_balance("bob", vec![coin(100, "uusd")]);
    assert!(!querier.try_minus_native_balance_with_tax("bob", vec![coin(60, "uusd")], &[]));
    assert!(!querier.try_minus_native_balance_with_tax("bob", vec![coin(99, "uusd")], &[2]));
    assert!(!querier.try_minus_native_balance_with_tax("bob", vec![coin(1, "uusd")], &[u128::MAX]));
    assert_eq!(all(&querier, "bob"), concat_coins(&[("uusd", "100")]));
    assert!(querier.try_minus_native_balance_with_tax("bob", vec![coin(98, "uusd")], &[2]));
    assert_eq!(all(&querier, "bob"), concat_coins(&[("uusd", "0")]));
}

#[test]
fn balances_are_set() {
    let mut querier = custom_deps().querier;
    querier.plus_native_balance("bob", vec![coin(5, "uusd")]);
    querier.plus_native_balance("carol", vec![coin(8, "uusd")]);
    let (bob, alice) = ([coin(1, "ukrw")], [coin(2, "uusd"), coin(3, "uluna")]);
    querier.with_balance(&[("bob", &bob), ("alice", &alice)]);
    assert_eq!(all(&querier, "bob"), concat_coins(&[("ukrw", "1")]));
    assert_eq!(all(&querier, "alice"), concat_coins(&[("uusd", "2"), ("uluna", "3")]));
    assert_eq!(all(&querier, "carol"), concat_coins(&[("uusd", "8")]));
}

#[test]
fn denominations_are_escaped() {
    let mut querier = custom_deps().querier;
    let odd = "a\"b\\c\nd\te\u{1}f\u{1f}\u{8}\u{c}\r\u{e9}";
    querier.plus_native_balance("bob", vec![coin(5, odd)]);
    querier.plus_native_balance("bob", vec![coin(2, odd)]);
    let text = r#"{"amount":[{"denom":"a\"b\\c\nd\te\u0001f\u001F\b\f\r"#.to_string()
        + "\u{e9}\",\"amount\":\"7\"}]}";
    assert_eq!(all(&querier, "bob"), text);
}

#[test]
fn coins_as_lists() {
    let held = vec![coin(5, "uusd")];
    let after = credit_coins(held.clone(), &vec![coin(1, "ukrw"), coin(2, "uusd")]);
    assert_eq!(after, Some(vec![coin(7, "uusd"), coin(1, "ukrw")]));
    assert_eq!(credit_coins(held.clone(), &vec![coin(u128::MAX, "uusd")]), None);
    assert_eq!(debit_coins(held.clone(), &vec![coin(2, "uusd")]), Some(vec![coin(3, "uusd")]));
    assert_eq!(debit_coins(held.clone(), &vec![coin(6, "uusd")]), None);
    assert_eq!(debit_coins(held, &vec![coin(1, "ukrw")]), None);
}
