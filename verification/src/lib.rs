//! A querier for the unit tests of a staking contract.
//!
//! A contract asks the chain and other contracts through a querier. The one here,
//! [`mock_querier::WasmMockQuerier`], answers from what a test told it to hold: native balances,
//! tax rate and caps, the balances of tokens, and the prices of a swap router.
//!
//! - [`mock_querier`] holds the querier, its parts, and the dependencies of a contract under test.
//! - [`model`] says, in mathematical terms, what the querier holds and what it answers.
//! - [`laws`] says what holds of the answers across changes of what is held; [`answer_laws`] says
//!   what every kind of request is answered, [`change_laws`] what every change does, and
//!   [`view_laws`] that the contracts see all of a value.
//! - [`coins`] and [`tokens`] do the bookkeeping of native and of token balances.
//! - [`string_map`] is the map that token balances, caps and prices are kept in.
//! - [`length_prefix`] makes the storage keys of token contracts.
//! - [`types`] holds the requests and replies; [`json`] says how replies are written down.
//! - [`base`], [`deps`] and [`wire`] call the crates that the chain's messages and test helpers
//!   come from. What they claim of those crates is believed, not proved.

pub mod answer_laws;
pub mod base;
pub mod change_laws;
pub mod coins;
pub mod deps;
pub mod json;
pub mod laws;
pub mod length_prefix;
pub mod mock_querier;
pub mod model;
pub mod string_map;
pub mod tokens;
pub mod types;
pub mod view_laws;
pub mod wire;
