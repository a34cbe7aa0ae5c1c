//! The other dependencies of a contract under test: its storage and its address book.
use cosmwasm_std::testing::{MockApi, MockStorage, MOCK_CONTRACT_ADDR};
use cosmwasm_std::{Api, CanonicalAddr, MemoryStorage};
use vstd::prelude::*;

use crate::types::address_view;

verus! {

/// The length of canonical addresses.
pub const CANONICAL_LENGTH: usize = 54;

/// The storage of a contract.
#[verifier::external_type_specification]
#[verifier::external_body]
pub struct ExMemoryStorage(MemoryStorage);

/// The address book. Its one field is private and set to the same number in every value.
#[verifier::external_type_specification]
#[verifier::external_body]
pub struct ExMockApi(MockApi);

/// What `storage` holds under each key.
pub uninterp spec fn storage_contents(storage: MemoryStorage) -> Map<Seq<u8>, Seq<u8>>;

/// The readable form of the canonical address `canonical`, if it has one.
pub uninterp spec fn human_address(canonical: Seq<u8>) -> Option<Seq<char>>;

/// Makes an empty storage with the `Default` of `cosmwasm_std::testing::MockStorage`.
#[verifier::external_body]
pub(crate) fn mock_storage() -> (storage: MemoryStorage)
    ensures
        (storage_contents(storage) == Map::<Seq<u8>, Seq<u8>>::empty()),
{
    MockStorage::default()
}

/// Makes an address book with the `Default` of `cosmwasm_std::testing::MockApi`. There is nothing
/// to tell two of them apart by.
#[verifier::external_body]
pub(crate) fn mock_api() -> MockApi {
    MockApi::default()
}

/// The address that the contract under test has, `cosmwasm_std::testing::MOCK_CONTRACT_ADDR`.
#[verifier::external_body]
pub(crate) fn mock_contract_addr() -> (address: &'static str)
    ensures
        address@ == "cosmos2contract"@,
{
    MOCK_CONTRACT_ADDR
}

/// Gives a canonical address its readable form with the `addr_humanize` of
/// `cosmwasm_std::testing::MockApi`. What comes back depends on the canonical address alone;
/// `None` stands for its error, which comes among others where the address is not of the one
/// length that canonical addresses have.
#[verifier::external_body]
pub(crate) fn addr_humanize(api: &MockApi, canonical: &[u8]) -> (address: Option<String>)
    ensures
        address_view(address) == human_address(canonical@),
        canonical@.len() != CANONICAL_LENGTH ==> address is None,
{
    api.addr_humanize(&CanonicalAddr::from(canonical)).ok().map(|address| address.to_string())
}

} // verus!
