//! What every kind of request is answered, from the JSON text of the request to the JSON text of
//! the reply, in terms of what is held.
use vstd::prelude::*;
use vstd::utf8::encode_utf8;

use crate::coins::lemma_denom_index_is;
use crate::deps::human_address;
use crate::json::{
    all_balances_json, bank_balance_json, decimal_field_json, number_field_json,
    number_field_json_is_unambiguous, number_json, token_info_json,
};
use crate::laws::swap_paths_compose;
use crate::mock_querier::is_total;
use crate::model::{
    answer, balance_prefix, lemma_key_names, outcomes, stored_balance_reply, swap_outcome,
    token_info_key, QuerierView, SwapStep,
};
use crate::tokens::total;
use crate::types::{
    BankQueryView, Cw20MsgView, ReplyView, RequestView, RouterMsgView, SwapOperationView,
    SystemErrorView, TerraQueryView, TerraRoute,
};
use crate::wire::{cw20_msg_of, request_of, router_msg_of};

verus! {

/// A text that holds no request is refused, with the text itself in the refusal.
pub proof fn unreadable_request_is_refused(
    q: QuerierView,
    step: SwapStep,
    text: Seq<u8>,
    reply: ReplyView,
)
    requires
        request_of(text) is None,
    ensures
        q.answers_raw(text),
        q.raw_replies(step, text, reply) <==> reply == Err::<
            Result<Seq<u8>, Seq<char>>,
            SystemErrorView,
        >(SystemErrorView::InvalidRequest { error: "Parsing query request"@, request: text }),
{
}

/// A text that holds a request is answered as the request.
pub proof fn request_in_a_text_is_answered(
    q: QuerierView,
    step: SwapStep,
    text: Seq<u8>,
    request: RequestView,
    reply: ReplyView,
)
    requires
        request_of(text) == Some(request),
    ensures
        q.answers_raw(text) <==> q.answers(request),
        q.raw_replies(step, text, reply) <==> q.replies(step, request, reply),
{
}

/// A query for the balance of an address in a denomination is answered with that denomination and
/// the amount of the first coin of it that the address holds, zero where it holds none. `i` is the
/// place of that coin, or the end of the list.
pub proof fn bank_balance_is_answered(
    q: QuerierView,
    step: SwapStep,
    address: Seq<char>,
    denom: Seq<char>,
    i: int,
    text: Seq<u8>,
    reply: ReplyView,
)
    requires
        q.native.contains_key(address) ==> {
            &&& 0 <= i <= q.native[address].len()
            &&& forall|j: int| 0 <= j < i ==> (#[trigger] q.native[address][j]).0 != denom
            &&& i < q.native[address].len() ==> q.native[address][i].0 == denom
        },
    ensures
        ({
            let amount = if q.native.contains_key(address) && i < q.native[address].len() {
                q.native[address][i].1
            } else {
                0
            };
            let expected: ReplyView = Ok(Ok(bank_balance_json((denom, amount))));
            let query = BankQueryView::Balance { address, denom };
            &&& q.bank_reply(query) == expected
            &&& q.answers(RequestView::Bank(query))
            &&& q.replies(step, RequestView::Bank(query), reply) <==> reply == expected
            &&& request_of(text) == Some(RequestView::Bank(query)) ==> q.answers_raw(text) && (
            q.raw_replies(step, text, reply) <==> reply == expected)
        }),
{
    if q.native.contains_key(address) {
        lemma_denom_index_is(q.native[address], denom, i);
    }
}

/// A query for all coins of an address is answered with the list that it holds, which is empty
/// where the address is not listed.
pub proof fn all_balances_are_answered(
    q: QuerierView,
    step: SwapStep,
    address: Seq<char>,
    text: Seq<u8>,
    reply: ReplyView,
)
    ensures
        ({
            let held = if q.native.contains_key(address) {
                q.native[address]
            } else {
                Seq::empty()
            };
            let expected: ReplyView = Ok(Ok(all_balances_json(held)));
            let query = BankQueryView::AllBalances { address };
            &&& q.bank_reply(query) == expected
            &&& q.answers(RequestView::Bank(query))
            &&& q.replies(step, RequestView::Bank(query), reply) <==> reply == expected
            &&& request_of(text) == Some(RequestView::Bank(query)) ==> q.answers_raw(text) && (
            q.raw_replies(step, text, reply) <==> reply == expected)
        }),
{
}

/// A query of the treasury for the tax rate is answered with the rate that is set.
pub proof fn tax_rate_is_answered(
    q: QuerierView,
    step: SwapStep,
    text: Seq<u8>,
    reply: ReplyView,
)
    ensures
        ({
            let expected: ReplyView = Ok(
                Ok(decimal_field_json("rate"@, q.tax_rate.atomics as nat)),
            );
            let query_data = TerraQueryView::TaxRate;
            let request = RequestView::Custom { route: TerraRoute::Treasury, query_data };
            &&& q.tax_rate_reply() == expected
            &&& q.treasury_reply(query_data) == expected
            &&& q.custom_reply(TerraRoute::Treasury, query_data) == expected
            &&& q.answers(request)
            &&& q.replies(step, request, reply) <==> reply == expected
            &&& request_of(text) == Some(request) ==> q.answers_raw(text) && (q.raw_replies(
                step,
                text,
                reply,
            ) <==> reply == expected)
        }),
{
}

/// A query of the treasury for the tax cap of a denomination is answered with the cap that is set
/// for this denomination, zero where there is none.
pub proof fn tax_cap_is_answered(
    q: QuerierView,
    step: SwapStep,
    denom: Seq<char>,
    text: Seq<u8>,
    reply: ReplyView,
)
    ensures
        ({
            let cap = if q.tax_caps.contains_key(denom) {
                q.tax_caps[denom]
            } else {
                0
            };
            let expected: ReplyView = Ok(Ok(number_field_json("cap"@, cap)));
            let query_data = TerraQueryView::TaxCap { denom };
            let request = RequestView::Custom { route: TerraRoute::Treasury, query_data };
            &&& q.tax_cap_reply(denom) == expected
            &&& q.treasury_reply(query_data) == expected
            &&& q.custom_reply(TerraRoute::Treasury, query_data) == expected
            &&& q.answers(request)
            &&& q.replies(step, request, reply) <==> reply == expected
            &&& request_of(text) == Some(request) ==> q.answers_raw(text) && (q.raw_replies(
                step,
                text,
                reply,
            ) <==> reply == expected)
        }),
{
}

/// A custom query is refused where it goes to another module than the treasury, or asks the
/// treasury for something else than the tax rate or a tax cap. It is always answered.
pub proof fn other_custom_queries_are_refused(
    q: QuerierView,
    step: SwapStep,
    route: TerraRoute,
    query_data: TerraQueryView,
    text: Seq<u8>,
    reply: ReplyView,
)
    requires
        route == TerraRoute::Treasury ==> query_data is Swap || query_data is ExchangeRates
            || query_data is ContractInfo,
    ensures
        ({
            let kind = if route == TerraRoute::Treasury {
                "handle_custom_treasury"@
            } else {
                "handle_custom"@
            };
            let expected: ReplyView = Err(SystemErrorView::UnsupportedRequest { kind });
            let request = RequestView::Custom { route, query_data };
            &&& route == TerraRoute::Treasury ==> q.treasury_reply(query_data) == expected
            &&& q.custom_reply(route, query_data) == expected
            &&& q.answers(request)
            &&& q.replies(step, request, reply) <==> reply == expected
            &&& request_of(text) == Some(request) ==> q.answers_raw(text) && (q.raw_replies(
                step,
                text,
                reply,
            ) <==> reply == expected)
        }),
{
}

/// The key of a token's description: the name behind its length. The key of a balance starts with
/// its own name behind its length, nine bytes in all.
pub proof fn keys_of_token_contracts()
    ensures
        token_info_key() == seq![0u8, 10u8] + encode_utf8("token_info"@),
        token_info_key().len() == 12,
        balance_prefix() == seq![0u8, 7u8] + encode_utf8("balance"@),
        balance_prefix().len() == 9,
{
    lemma_key_names();
    assert(token_info_key() =~= seq![0u8, 10u8] + encode_utf8("token_info"@));
    assert(balance_prefix() =~= seq![0u8, 7u8] + encode_utf8("balance"@));
}

/// A query for the description of a token is answered with its name, the symbol, the decimals and
/// the sum of its balances, and refused where the token is not listed. With another key it is
/// passed on.
pub proof fn token_description_is_answered(
    q: QuerierView,
    step: SwapStep,
    contract_addr: Seq<char>,
    key: Seq<u8>,
    text: Seq<u8>,
    reply: ReplyView,
)
    ensures
        key != seq![0u8, 10u8] + encode_utf8("token_info"@) ==> q.token_info_reply(
            contract_addr,
            key,
        ) is None,
        key == seq![0u8, 10u8] + encode_utf8("token_info"@) ==> {
            let expected: ReplyView = if q.tokens.contains_key(contract_addr) {
                Ok(
                    Ok(
                        token_info_json(
                            contract_addr + "Token"@,
                            "TOK"@,
                            6,
                            total(q.tokens[contract_addr]) as u128,
                        ),
                    ),
                )
            } else {
                Err(
                    SystemErrorView::InvalidRequest {
                        error: "No balance info exists for the contract "@ + contract_addr,
                        request: key,
                    },
                )
            };
            let request = RequestView::WasmRaw { contract_addr, key };
            &&& q.token_info_reply(contract_addr, key) == Some(expected)
            &&& q.wasm_raw_reply(contract_addr, key) == expected
            &&& q.replies(step, request, reply) <==> reply == expected
            &&& request_of(text) == Some(request) ==> (q.raw_replies(step, text, reply) <==> reply
                == expected)
        },
{
    keys_of_token_contracts();
}

/// A query for a stored balance is answered with the balance of the account whose address stands
/// in the key behind the first nine bytes. It is refused where the token is not listed, where the
/// address has no readable form, and where it is not an account of the token.
pub proof fn stored_balance_is_answered(
    q: QuerierView,
    step: SwapStep,
    contract_addr: Seq<char>,
    key: Seq<u8>,
    text: Seq<u8>,
    reply: ReplyView,
)
    requires
        key.len() >= 9,
    ensures
        ({
            let address = human_address(key.subrange(9, key.len() as int));
            let expected: ReplyView = if !q.tokens.contains_key(contract_addr) {
                Err(
                    SystemErrorView::InvalidRequest {
                        error: "No balance info exists for the contract "@ + contract_addr,
                        request: key,
                    },
                )
            } else if address is None {
                Err(
                    SystemErrorView::InvalidRequest {
                        error: "Parsing query request"@,
                        request: key,
                    },
                )
            } else if !q.tokens[contract_addr].contains_key(address->0) {
                Err(SystemErrorView::InvalidRequest { error: "Balance not found"@, request: key })
            } else {
                Ok(Ok(number_json(q.tokens[contract_addr][address->0])))
            };
            let request = RequestView::WasmRaw { contract_addr, key };
            &&& q.balance_reply(contract_addr, key) == expected
            &&& q.tokens.contains_key(contract_addr) ==> stored_balance_reply(
                q.tokens[contract_addr],
                key,
                address,
            ) == expected
            &&& key != seq![0u8, 10u8] + encode_utf8("token_info"@) ==> {
                &&& q.wasm_raw_reply(contract_addr, key) == expected
                &&& q.replies(step, request, reply) <==> reply == expected
                &&& request_of(text) == Some(request) ==> (q.raw_replies(step, text, reply)
                    <==> reply == expected)
            }
        }),
{
    keys_of_token_contracts();
    assert(key.skip(9) =~= key.subrange(9, key.len() as int));
}

/// What was read of the address in a key decides on the answer.
pub proof fn read_address_decides(
    accounts: Map<Seq<char>, u128>,
    key: Seq<u8>,
    address: Option<Seq<char>>,
)
    ensures
        address is None ==> stored_balance_reply(accounts, key, address) == Err::<
            Result<Seq<u8>, Seq<char>>,
            SystemErrorView,
        >(SystemErrorView::InvalidRequest { error: "Parsing query request"@, request: key }),
        address matches Some(a) ==> (accounts.contains_key(a) ==> stored_balance_reply(
            accounts,
            key,
            address,
        ) == Ok::<Result<Seq<u8>, Seq<char>>, SystemErrorView>(Ok(number_json(accounts[a])))),
        address matches Some(a) ==> (!accounts.contains_key(a) ==> stored_balance_reply(
            accounts,
            key,
            address,
        ) == Err::<Result<Seq<u8>, Seq<char>>, SystemErrorView>(
            SystemErrorView::InvalidRequest { error: "Balance not found"@, request: key },
        )),
{
}

/// Which queries of what a contract stores can be answered: those for a description wherever the
/// supply does not exceed the largest balance, and others wherever the key has the nine bytes
/// that an address stands behind.
pub proof fn storage_queries_that_are_answered(
    q: QuerierView,
    contract_addr: Seq<char>,
    key: Seq<u8>,
    text: Seq<u8>,
)
    ensures
        ({
            let described = key == seq![0u8, 10u8] + encode_utf8("token_info"@);
            let supply_fits = q.tokens.contains_key(contract_addr) ==> total(
                q.tokens[contract_addr],
            ) <= u128::MAX;
            let expected = if described {
                supply_fits
            } else {
                key.len() >= 9
            };
            let request = RequestView::WasmRaw { contract_addr, key };
            &&& q.answers_token_info(contract_addr, key) <==> (described ==> supply_fits)
            &&& q.answers_wasm_raw(contract_addr, key) <==> expected
            &&& q.answers(request) <==> expected
            &&& request_of(text) == Some(request) ==> (q.answers_raw(text) <==> expected)
        }),
{
    keys_of_token_contracts();
    assert(Map::<Seq<char>, u128>::empty().dom().len() == 0);
    assert(total(Map::<Seq<char>, u128>::empty()) == 0);
}

/// Swaps are made hop by hop: an amount may become another on a path exactly where there is an
/// amount before, between and behind all hops, each of which becomes the next at the price of the
/// hop.
pub proof fn swaps_go_hop_by_hop(step: SwapStep, offer: u128, prices: Seq<u64>, outcome: u128)
    ensures
        swap_outcome(step, offer, prices, outcome) <==> exists|amounts: Seq<u128>|
            {
                &&& amounts.len() == prices.len() + 1
                &&& amounts[0] == offer
                &&& #[trigger] amounts.last() == outcome
                &&& forall|i: int|
                    0 <= i < prices.len() ==> step(amounts[i], #[trigger] prices[i], amounts[i + 1])
            },
    decreases prices.len(),
{
    if prices.len() == 0 {
        if swap_outcome(step, offer, prices, outcome) {
            let amounts = seq![offer];
            assert(amounts.last() == outcome);
        }
    } else {
        let rest = prices.drop_last();
        if swap_outcome(step, offer, prices, outcome) {
            let before = choose|before: u128|
                swap_outcome(step, offer, rest, before) && #[trigger] step(
                    before,
                    prices.last(),
                    outcome,
                );
            swaps_go_hop_by_hop(step, offer, rest, before);
            let first = choose|amounts: Seq<u128>|
                {
                    &&& amounts.len() == rest.len() + 1
                    &&& amounts[0] == offer
                    &&& #[trigger] amounts.last() == before
                    &&& forall|i: int|
                        0 <= i < rest.len() ==> step(amounts[i], #[trigger] rest[i], amounts[i + 1])
                };
            let amounts = first.push(outcome);
            assert(amounts.last() == outcome);
            assert forall|i: int| 0 <= i < prices.len() implies step(
                amounts[i],
                #[trigger] prices[i],
                amounts[i + 1],
            ) by {
                if i < rest.len() {
                    assert(rest[i] == prices[i]);
                }
            }
        }
        if exists|amounts: Seq<u128>|
            {
                &&& amounts.len() == prices.len() + 1
                &&& amounts[0] == offer
                &&& #[trigger] amounts.last() == outcome
                &&& forall|i: int|
                    0 <= i < prices.len() ==> step(amounts[i], #[trigger] prices[i], amounts[i + 1])
            } {
            let amounts = choose|amounts: Seq<u128>|
                {
                    &&& amounts.len() == prices.len() + 1
                    &&& amounts[0] == offer
                    &&& #[trigger] amounts.last() == outcome
                    &&& forall|i: int|
                        0 <= i < prices.len() ==> step(
                            amounts[i],
                            #[trigger] prices[i],
                            amounts[i + 1],
                        )
                };
            let first = amounts.drop_last();
            let before = first.last();
            assert forall|i: int| 0 <= i < rest.len() implies step(
                first[i],
                #[trigger] rest[i],
                first[i + 1],
            ) by {
                assert(rest[i] == prices[i]);
            }
            assert(first.last() == before);
            swaps_go_hop_by_hop(step, offer, rest, before);
            assert(prices[prices.len() - 1] == prices.last());
            assert(step(before, prices.last(), outcome));
        }
    }
}

/// Every swap of a path has its own price: the list of prices is as long as the path, and holds in
/// each place the price for the pair of assets of the swap in that place.
pub proof fn every_swap_has_its_price(q: QuerierView, operations: Seq<SwapOperationView>)
    ensures
        q.operation_prices(operations).len() == operations.len(),
        forall|i: int|
            0 <= i < operations.len() ==> #[trigger] q.operation_prices(operations)[i]
                == q.prices[operations[i].pair()],
        q.has_prices(operations) <==> forall|i: int|
            0 <= i < operations.len() ==> q.prices.contains_key(#[trigger] operations[i].pair()),
{
}

/// A simulated swap is answered with the amount behind the last hop, where the amount before the
/// first hop is the one offered and each hop of the path, in order, makes the amount before it
/// the one behind it at the price held for its pair of assets.
pub proof fn simulation_goes_hop_by_hop(
    q: QuerierView,
    step: SwapStep,
    offer_amount: u128,
    operations: Seq<SwapOperationView>,
    msg: Seq<u8>,
    text: Seq<u8>,
    reply: ReplyView,
)
    ensures
        ({
            let expected = exists|amounts: Seq<u128>|
                {
                    &&& amounts.len() == operations.len() + 1
                    &&& amounts[0] == offer_amount
                    &&& reply == Ok::<Result<Seq<u8>, Seq<char>>, SystemErrorView>(
                        Ok(number_field_json("amount"@, #[trigger] amounts.last())),
                    )
                    &&& forall|i: int|
                        0 <= i < operations.len() ==> step(
                            amounts[i],
                            q.prices[(#[trigger] operations[i]).pair()],
                            amounts[i + 1],
                        )
                };
            let simulated = RouterMsgView::SimulateSwapOperations { offer_amount, operations };
            let contract_addr = "terraswap_router"@;
            let request = RequestView::WasmSmart { contract_addr, msg };
            &&& q.simulation_replies(step, offer_amount, operations, reply) <==> expected
            &&& q.router_replies(step, Some(simulated), Some(reply)) <==> expected
            &&& !q.router_replies(step, Some(simulated), None)
            &&& router_msg_of(msg) == Some(simulated) ==> {
                &&& q.wasm_smart_replies(step, contract_addr, msg, reply) <==> expected
                &&& q.replies(step, request, reply) <==> expected
                &&& request_of(text) == Some(request) ==> (q.raw_replies(step, text, reply)
                    <==> expected)
            }
        }),
{
    let prices = q.operation_prices(operations);
    if q.simulation_replies(step, offer_amount, operations, reply) {
        let outcome = choose|outcome: u128| #[trigger]
            swap_outcome(step, offer_amount, prices, outcome) && reply == answer(
                number_field_json("amount"@, outcome),
            );
        swaps_go_hop_by_hop(step, offer_amount, prices, outcome);
        let amounts = choose|amounts: Seq<u128>|
            {
                &&& amounts.len() == prices.len() + 1
                &&& amounts[0] == offer_amount
                &&& #[trigger] amounts.last() == outcome
                &&& forall|i: int|
                    0 <= i < prices.len() ==> step(amounts[i], #[trigger] prices[i], amounts[i + 1])
            };
        assert forall|i: int| 0 <= i < operations.len() implies step(
            amounts[i],
            q.prices[(#[trigger] operations[i]).pair()],
            amounts[i + 1],
        ) by {
            assert(prices[i] == q.prices[operations[i].pair()]);
        }
        assert(amounts.last() == outcome);
    }
    if exists|amounts: Seq<u128>|
        {
            &&& amounts.len() == operations.len() + 1
            &&& amounts[0] == offer_amount
            &&& reply == Ok::<Result<Seq<u8>, Seq<char>>, SystemErrorView>(
                Ok(number_field_json("amount"@, #[trigger] amounts.last())),
            )
            &&& forall|i: int|
                0 <= i < operations.len() ==> step(
                    amounts[i],
                    q.prices[(#[trigger] operations[i]).pair()],
                    amounts[i + 1],
                )
        } {
        let amounts = choose|amounts: Seq<u128>|
            {
                &&& amounts.len() == operations.len() + 1
                &&& amounts[0] == offer_amount
                &&& reply == Ok::<Result<Seq<u8>, Seq<char>>, SystemErrorView>(
                    Ok(number_field_json("amount"@, #[trigger] amounts.last())),
                )
                &&& forall|i: int|
                    0 <= i < operations.len() ==> step(
                        amounts[i],
                        q.prices[(#[trigger] operations[i]).pair()],
                        amounts[i + 1],
                    )
            };
        let outcome = amounts.last();
        assert forall|i: int| 0 <= i < prices.len() implies step(
            amounts[i],
            #[trigger] prices[i],
            amounts[i + 1],
        ) by {
            assert(prices[i] == q.prices[operations[i].pair()]);
        }
        swaps_go_hop_by_hop(step, offer_amount, prices, outcome);
        assert(swap_outcome(step, offer_amount, prices, outcome));
    }
}

/// The simulation of a path in two parts answers what that of the second part answers for an
/// amount that the first part yields.
pub proof fn simulations_compose(
    q: QuerierView,
    step: SwapStep,
    offer_amount: u128,
    first: Seq<SwapOperationView>,
    second: Seq<SwapOperationView>,
    reply: ReplyView,
)
    ensures
        q.simulation_replies(step, offer_amount, first + second, reply) <==> exists|between: u128|
            q.simulation_replies(
                step,
                offer_amount,
                first,
                Ok(Ok(number_field_json("amount"@, between))),
            ) && #[trigger] q.simulation_replies(step, between, second, reply),
{
    let prices_1 = q.operation_prices(first);
    let prices_2 = q.operation_prices(second);
    assert(q.operation_prices(first + second) =~= prices_1 + prices_2);
    if q.simulation_replies(step, offer_amount, first + second, reply) {
        let outcome = choose|outcome: u128| #[trigger]
            swap_outcome(step, offer_amount, prices_1 + prices_2, outcome) && reply == answer(
                number_field_json("amount"@, outcome),
            );
        swap_paths_compose(step, offer_amount, prices_1, prices_2, outcome);
        let between = choose|between: u128| #[trigger]
            swap_outcome(step, offer_amount, prices_1, between) && swap_outcome(
                step,
                between,
                prices_2,
                outcome,
            );
        assert(q.simulation_replies(
            step,
            offer_amount,
            first,
            Ok(Ok(number_field_json("amount"@, between))),
        ));
        assert(q.simulation_replies(step, between, second, reply));
    }
    if exists|between: u128|
        q.simulation_replies(
            step,
            offer_amount,
            first,
            Ok(Ok(number_field_json("amount"@, between))),
        ) && #[trigger] q.simulation_replies(step, between, second, reply) {
        let between = choose|between: u128|
            q.simulation_replies(
                step,
                offer_amount,
                first,
                Ok(Ok(number_field_json("amount"@, between))),
            ) && #[trigger] q.simulation_replies(step, between, second, reply);
        let middle = choose|middle: u128| #[trigger]
            swap_outcome(step, offer_amount, prices_1, middle) && answer(
                number_field_json("amount"@, between),
            ) == answer(number_field_json("amount"@, middle));
        number_field_json_is_unambiguous("amount"@, between, middle);
        let outcome = choose|outcome: u128| #[trigger]
            swap_outcome(step, between, prices_2, outcome) && reply == answer(
                number_field_json("amount"@, outcome),
            );
        swap_paths_compose(step, offer_amount, prices_1, prices_2, outcome);
        assert(swap_outcome(step, offer_amount, prices_1 + prices_2, outcome));
    }
}

/// What a step may do is what the function that computes it may return, and the function has to
/// take every amount and every price.
pub proof fn steps_are_computed<F: Fn(u128, u64) -> u128>(
    step: F,
    amount: u128,
    price: u64,
    outcome: u128,
)
    ensures
        outcomes(step)(amount, price, outcome) <==> call_ensures(step, (amount, price), outcome),
        is_total(step) <==> forall|a: u128, p: u64| #[trigger] call_requires(step, (a, p)),
{
}

/// Other messages to the router are refused, and what is no message to the router is passed on.
pub proof fn other_router_messages(
    q: QuerierView,
    step: SwapStep,
    msg: Seq<u8>,
    text: Seq<u8>,
    reply: ReplyView,
)
    ensures
        q.router_replies(step, None, None),
        !q.router_replies(step, None, Some(reply)),
        !q.router_replies(step, Some(RouterMsgView::Config), None),
        ({
            let expected: ReplyView = Err(
                SystemErrorView::UnsupportedRequest {
                    kind: "handle_wasm_smart:terraswap_router"@,
                },
            );
            let contract_addr = "terraswap_router"@;
            let request = RequestView::WasmSmart { contract_addr, msg };
            &&& q.router_replies(step, Some(RouterMsgView::Config), Some(reply)) <==> reply
                == expected
            &&& router_msg_of(msg) == Some(RouterMsgView::Config) ==> {
                &&& q.wasm_smart_replies(step, contract_addr, msg, reply) <==> reply == expected
                &&& q.replies(step, request, reply) <==> reply == expected
                &&& request_of(text) == Some(request) ==> (q.raw_replies(step, text, reply)
                    <==> reply == expected)
            }
        }),
{
}

/// Only messages to the router's address are read as messages to the router.
pub proof fn messages_to_the_router(contract_addr: Seq<char>, msg: Seq<u8>)
    ensures
        contract_addr == "terraswap_router"@ ==> QuerierView::routed_msg(contract_addr, msg)
            == router_msg_of(msg),
        contract_addr != "terraswap_router"@ ==> QuerierView::routed_msg(contract_addr, msg)
            is None,
{
}

/// A message to a listed token contract that asks for the balance of an address is answered with
/// the balance held for that address at that contract, zero where it is not listed.
pub proof fn cw20_balance_is_answered(
    q: QuerierView,
    step: SwapStep,
    contract_addr: Seq<char>,
    address: Seq<char>,
    msg: Seq<u8>,
    text: Seq<u8>,
    reply: ReplyView,
)
    requires
        q.tokens.contains_key(contract_addr),
    ensures
        ({
            let balance = if q.tokens[contract_addr].contains_key(address) {
                q.tokens[contract_addr][address]
            } else {
                0
            };
            let expected: ReplyView = Ok(Ok(number_field_json("balance"@, balance)));
            let asked = Cw20MsgView::Balance { address };
            let request = RequestView::WasmSmart { contract_addr, msg };
            &&& q.cw20_reply(contract_addr, Some(asked)) == Some(expected)
            &&& cw20_msg_of(msg) == Some(asked) && (contract_addr == "terraswap_router"@
                ==> router_msg_of(msg) is None) ==> {
                &&& q.answers_wasm_smart(contract_addr, msg)
                &&& q.wasm_smart_replies(step, contract_addr, msg, reply) <==> reply == expected
                &&& q.answers(request)
                &&& q.replies(step, request, reply) <==> reply == expected
                &&& request_of(text) == Some(request) ==> q.answers_raw(text) && (q.raw_replies(
                    step,
                    text,
                    reply,
                ) <==> reply == expected)
            }
        }),
{
}

/// Other messages to a token contract are refused, and so is what nobody reads.
pub proof fn other_contract_messages_are_refused(
    q: QuerierView,
    step: SwapStep,
    contract_addr: Seq<char>,
    msg: Seq<u8>,
    other: Cw20MsgView,
    text: Seq<u8>,
    reply: ReplyView,
)
    requires
        !(other is Balance),
    ensures
        q.cw20_reply(contract_addr, None) is None,
        q.cw20_reply(contract_addr, Some(other)) == Some(
            Err::<Result<Seq<u8>, Seq<char>>, SystemErrorView>(
                SystemErrorView::UnsupportedRequest { kind: "handle_wasm_smart:cw20"@ },
            ),
        ),
        (contract_addr == "terraswap_router"@ ==> router_msg_of(msg) is None) && (cw20_msg_of(msg)
            is None || cw20_msg_of(msg) == Some(other)) ==> {
            let kind = if cw20_msg_of(msg) is None {
                "handle_wasm_smart"@
            } else {
                "handle_wasm_smart:cw20"@
            };
            let expected: ReplyView = Err(SystemErrorView::UnsupportedRequest { kind });
            let request = RequestView::WasmSmart { contract_addr, msg };
            &&& q.answers_wasm_smart(contract_addr, msg)
            &&& q.wasm_smart_replies(step, contract_addr, msg, reply) <==> reply == expected
            &&& q.answers(request)
            &&& q.replies(step, request, reply) <==> reply == expected
            &&& request_of(text) == Some(request) ==> q.answers_raw(text) && (q.raw_replies(
                step,
                text,
                reply,
            ) <==> reply == expected)
        },
{
}

/// Which messages to a contract can be answered: a simulated swap wherever there is a price for
/// the pair of each operation, a query for a balance wherever the contract is listed, and all
/// others.
pub proof fn contract_messages_that_are_answered(
    q: QuerierView,
    contract_addr: Seq<char>,
    msg: Seq<u8>,
    text: Seq<u8>,
)
    ensures
        ({
            let routed = contract_addr == "terraswap_router"@ && router_msg_of(msg) is Some;
            let expected = if routed {
                router_msg_of(msg)->0 matches RouterMsgView::SimulateSwapOperations {
                    operations,
                    ..
                } ==> forall|i: int|
                    0 <= i < operations.len() ==> q.prices.contains_key(
                        (#[trigger] operations[i]).pair(),
                    )
            } else {
                cw20_msg_of(msg) matches Some(Cw20MsgView::Balance { .. })
                    ==> q.tokens.contains_key(contract_addr)
            };
            let request = RequestView::WasmSmart { contract_addr, msg };
            &&& q.answers_wasm_smart(contract_addr, msg) <==> expected
            &&& q.answers(request) <==> expected
            &&& request_of(text) == Some(request) ==> (q.answers_raw(text) <==> expected)
        }),
{
    if contract_addr == "terraswap_router"@ && router_msg_of(msg) is Some {
        if let RouterMsgView::SimulateSwapOperations { offer_amount, operations } = router_msg_of(
            msg,
        )->0 {
            every_swap_has_its_price(q, operations);
            assert(q.has_prices(operations) <==> forall|i: int|
                0 <= i < operations.len() ==> q.prices.contains_key(
                    (#[trigger] operations[i]).pair(),
                )) by {
                if q.has_prices(operations) {
                    assert forall|i: int| 0 <= i < operations.len() implies q.prices.contains_key(
                        (#[trigger] operations[i]).pair(),
                    ) by {}
                }
            }
        }
    }
}

/// What was read of a message decides whether it can be answered.
pub proof fn read_messages_that_are_answered(
    q: QuerierView,
    contract_addr: Seq<char>,
    routed: Option<RouterMsgView>,
    asked: Option<Cw20MsgView>,
)
    ensures
        q.answers_router_msg(routed) <==> (routed matches Some(
            RouterMsgView::SimulateSwapOperations { operations, .. },
        ) ==> forall|i: int|
            0 <= i < operations.len() ==> q.prices.contains_key(
                #[trigger] operations[i].pair(),
            )),
        q.answers_cw20_msg(contract_addr, asked) <==> (asked matches Some(
            Cw20MsgView::Balance { .. },
        ) ==> q.tokens.contains_key(contract_addr)),
{
    if let Some(RouterMsgView::SimulateSwapOperations { offer_amount, operations }) = routed {
        every_swap_has_its_price(q, operations);
    }
}

} // verus!
