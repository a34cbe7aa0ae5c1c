use cosmwasm_std::testing::MOCK_CONTRACT_ADDR;
use cosmwasm_std::{Api, Order, Storage};
use staking_mock::coins::coins_to_tax;
use staking_mock::mock_querier::custom_deps;
use staking_mock::types::Coin;

#[test]
fn the_storage_is_empty_at_first() {
    let mut deps = custom_deps();
    assert!(deps.storage.range(None, None, Order::Ascending).next().is_none());
    deps.storage.set(b"key", b"value");
    assert_eq!(deps.storage.get(b"key"), Some(b"value".to_vec()));
    assert!(custom_deps().storage.range(None, None, Order::Ascending).next().is_none());
}

#[test]
fn the_address_book_works() {
    let deps = custom_deps();
    let canonical = deps.api.addr_canonicalize("alice").unwrap();
    assert_eq!(canonical.len(), 54);
    assert_eq!(deps.api.addr_humanize(&canonical).unwrap().to_string(), "alice");
}

#[test]
fn the_contract_has_its_address() {
    assert_eq!(MOCK_CONTRACT_ADDR, "cosmos2contract");
}

#[test]
fn coins_before_the_first_luna_are_taxed() {
    let coin = |denom: &str| Coin { denom: denom.to_string(), amount: 1 };
    assert_eq!(coins_to_tax(&vec![]), 0);
    assert_eq!(coins_to_tax(&vec![coin("uusd"), coin("ukrw")]), 2);
    assert_eq!(coins_to_tax(&vec![coin("uusd"), coin("uluna"), coin("ukrw")]), 1);
    assert_eq!(coins_to_tax(&vec![coin("uluna")]), 0);
}
