# staking_mock

A querier for the unit tests of a staking contract. A contract asks the chain and other contracts
through a querier; this one answers from what a test told it to hold: native balances, the tax rate
and tax caps, the balances of tokens, and the prices of a swap router.

- `src/` is the library. Its contracts say for every request what is answered, and for every change
  what is held afterwards; Verus proves them. `src/laws.rs` states what follows for answers across
  changes. What `src/base.rs`, `src/deps.rs` and `src/wire.rs` say of the crates they call is
  believed.
- `app/` offers the querier in the types of `cosmwasm-std`, as the querier of `OwnedDeps`. Prices
  are floating-point numbers there; the library holds their bits and is handed the multiplication.
- `tests/` runs the library with the real crates.

Requests that cannot be answered, such as a swap without a price, are left out by `requires`. The
`try_` functions take any request and any change, and say in their result when it does not fit.
