//! What holds of the querier as a whole: how its answers follow what it was told to hold.
use vstd::prelude::*;
use vstd::utf8::encode_utf8;

use crate::base::{coins_held, set_holdings};
use crate::coins::{self, amount_of, has_denom, lemma_denom_index, sum_of, taxed};
use crate::deps::human_address;
use crate::json::{
    all_balances_json, all_balances_json_is_unambiguous, bank_balance_json, decimal_field_json,
    decimal_field_json_is_unambiguous, number_field_json, number_field_json_is_unambiguous,
    number_json, token_info_json, token_info_json_tells_the_supply,
};
use crate::length_prefix::{length_prefix_is_unambiguous, length_prefixed};
use crate::mock_querier::{held_tokens_are_finite, WasmMockQuerier};
use crate::model::{
    answer, balance_prefix, lemma_key_names, no_balance_info, stored_balance_reply, swap_outcome,
    token_info_key, QuerierView, SwapStep,
};
use crate::tokens::{
    self, balance_in, balance_of, credit_adds_to_each_balance, credit_raises_supply, credit_tokens,
    credit_tokens_fits, debit_lowers_supply, debit_takes_from_each_balance, debit_tokens,
    debit_tokens_fits, last_entry_counts, lemma_total_insert, lemma_total_remove, list_map,
    moved_amount, moved_of, only_entries_are_listed, sum_amounts, token_accounts, token_map, total,
    AmountsView, TokensView,
};
use crate::types::{
    BankQueryView, CoinView, Cw20MsgView, ReplyView, SwapOperationView, TerraQueryView,
    TerraRoute,
};

verus! {

/// Every answer depends only on the part of what the querier holds that it is about: changes of
/// one part leave the answers about the others as they are.
pub proof fn answers_depend_on_their_part(
    a: QuerierView,
    b: QuerierView,
    step: SwapStep,
    query: BankQueryView,
    route: TerraRoute,
    query_data: TerraQueryView,
    contract_addr: Seq<char>,
    key: Seq<u8>,
    msg: Seq<u8>,
    reply: ReplyView,
)
    ensures
        a.native == b.native ==> a.bank_reply(query) == b.bank_reply(query),
        a.tax_rate == b.tax_rate && a.tax_caps == b.tax_caps ==> a.custom_reply(route, query_data)
            == b.custom_reply(route, query_data),
        a.tokens == b.tokens ==> a.wasm_raw_reply(contract_addr, key) == b.wasm_raw_reply(
            contract_addr,
            key,
        ) && a.answers_wasm_raw(contract_addr, key) == b.answers_wasm_raw(contract_addr, key),
        a.tokens == b.tokens && a.prices == b.prices ==> a.wasm_smart_replies(
            step,
            contract_addr,
            msg,
            reply,
        ) == b.wasm_smart_replies(step, contract_addr, msg, reply) && a.answers_wasm_smart(
            contract_addr,
            msg,
        ) == b.answers_wasm_smart(contract_addr, msg),
{
    if a.prices == b.prices {
        assert forall|operations: Seq<SwapOperationView>| #[trigger]
            a.operation_prices(operations) == b.operation_prices(operations) by {
            assert(a.operation_prices(operations) =~= b.operation_prices(operations));
        }
        assert forall|offer: u128, operations: Seq<SwapOperationView>| #[trigger]
            a.simulation_replies(step, offer, operations, reply) == b.simulation_replies(
                step,
                offer,
                operations,
                reply,
            ) by {
            assert(a.operation_prices(operations) == b.operation_prices(operations));
        }
    }
}

/// A querier that was told nothing but native balances knows no tax, refuses every query of what
/// a contract stores, and has no balance of any token to answer with.
pub proof fn nothing_is_held_at_first(
    native: Map<Seq<char>, Seq<CoinView>>,
    denom: Seq<char>,
    contract_addr: Seq<char>,
    key: Seq<u8>,
    address: Seq<char>,
)
    ensures
        ({
            let q = QuerierView::with_native(native);
            &&& q.tax_rate_reply() == answer(decimal_field_json("rate"@, 0))
            &&& q.tax_cap_reply(denom) == answer(number_field_json("cap"@, 0))
            &&& q.wasm_raw_reply(contract_addr, key) == no_balance_info(contract_addr, key)
            &&& !q.answers_cw20_msg(contract_addr, Some(Cw20MsgView::Balance { address }))
        }),
{
}

/// After coins were added to those of an address, a query for a denomination is answered with what
/// there was of it and what was added.
pub proof fn native_credit_is_seen(
    q: QuerierView,
    address: Seq<char>,
    added: Seq<CoinView>,
    denom: Seq<char>,
)
    requires
        q.native_credit_fits(address, added),
    ensures
        amount_of(coins_held(q.native, address), denom) + sum_of(added, denom) <= u128::MAX,
        q.native_credit(address, added).bank_reply(BankQueryView::Balance { address, denom })
            == answer(
            bank_balance_json(
                (
                    denom,
                    (amount_of(coins_held(q.native, address), denom) + sum_of(
                        added,
                        denom,
                    )) as u128,
                ),
            ),
        ),
{
    coins::credit_adds_to_each_denom(coins_held(q.native, address), added, denom);
}

/// After coins were taken from those of an address, a query for a denomination is answered with
/// what there was of it less what was taken.
pub proof fn native_debit_is_seen(
    q: QuerierView,
    address: Seq<char>,
    taken: Seq<CoinView>,
    denom: Seq<char>,
)
    requires
        q.native_debit_fits(address, taken),
    ensures
        sum_of(taken, denom) <= amount_of(coins_held(q.native, address), denom),
        q.native_debit(address, taken).bank_reply(BankQueryView::Balance { address, denom })
            == answer(
            bank_balance_json(
                (
                    denom,
                    (amount_of(coins_held(q.native, address), denom) - sum_of(
                        taken,
                        denom,
                    )) as u128,
                ),
            ),
        ),
{
    coins::debit_takes_from_each_denom(coins_held(q.native, address), taken, denom);
}

/// Coins that are added to or taken from one address change no answer about another.
pub proof fn native_changes_stay_with_their_address(
    q: QuerierView,
    address: Seq<char>,
    coins: Seq<CoinView>,
    other: Seq<char>,
    denom: Seq<char>,
)
    requires
        other != address,
    ensures
        q.native_credit(address, coins).bank_reply(BankQueryView::AllBalances { address: other })
            == q.bank_reply(BankQueryView::AllBalances { address: other }),
        q.native_credit(address, coins).bank_reply(BankQueryView::Balance { address: other, denom })
            == q.bank_reply(BankQueryView::Balance { address: other, denom }),
        q.native_debit(address, coins).bank_reply(BankQueryView::AllBalances { address: other })
            == q.bank_reply(BankQueryView::AllBalances { address: other }),
        q.native_debit(address, coins).bank_reply(BankQueryView::Balance { address: other, denom })
            == q.bank_reply(BankQueryView::Balance { address: other, denom }),
{
}

/// Coins that were just added can be taken away again, and then every query for a denomination is
/// answered as before.
pub proof fn native_debit_undoes_credit(
    q: QuerierView,
    address: Seq<char>,
    moved: Seq<CoinView>,
    denom: Seq<char>,
)
    requires
        q.native_credit_fits(address, moved),
    ensures
        q.native_credit(address, moved).native_debit_fits(address, moved),
        q.native_credit(address, moved).native_debit(address, moved).bank_reply(
            BankQueryView::Balance { address, denom },
        ) == q.bank_reply(BankQueryView::Balance { address, denom }),
{
    coins::debit_undoes_credit(coins_held(q.native, address), moved, denom);
}

/// After the coins of addresses were set, a query for all coins of one of them is answered with
/// those of its last entry.
pub proof fn coins_that_were_set_are_answered(
    q: QuerierView,
    holdings: Seq<(Seq<char>, Seq<CoinView>)>,
    i: int,
)
    requires
        0 <= i < holdings.len(),
        forall|j: int| i < j < holdings.len() ==> (#[trigger] holdings[j]).0 != holdings[i].0,
    ensures
        (QuerierView { native: set_holdings(q.native, holdings), ..q }).bank_reply(
            BankQueryView::AllBalances { address: holdings[i].0 },
        ) == answer(all_balances_json(holdings[i].1)),
    decreases holdings.len(),
{
    if i < holdings.len() - 1 {
        let rest = holdings.drop_last();
        assert forall|j: int| i < j < rest.len() implies (#[trigger] rest[j]).0 != rest[i].0 by {
            assert(holdings[j].0 != holdings[i].0);
        }
        coins_that_were_set_are_answered(q, rest, i);
        assert(holdings[holdings.len() - 1].0 != holdings[i].0);
    }
}

/// Setting the coins of some addresses changes no answer about another.
pub proof fn coins_that_were_not_set_stay(
    q: QuerierView,
    holdings: Seq<(Seq<char>, Seq<CoinView>)>,
    address: Seq<char>,
)
    requires
        forall|j: int| 0 <= j < holdings.len() ==> (#[trigger] holdings[j]).0 != address,
    ensures
        coins_held(set_holdings(q.native, holdings), address) == coins_held(q.native, address),
    decreases holdings.len(),
{
    if holdings.len() > 0 {
        let rest = holdings.drop_last();
        assert forall|j: int| 0 <= j < rest.len() implies (#[trigger] rest[j]).0 != address by {
            assert(holdings[j].0 != address);
        }
        coins_that_were_not_set_stay(q, rest, address);
        assert(holdings[holdings.len() - 1].0 != address);
    }
}

/// The answer to a query for all coins tells them: queriers that answer it alike hold the same.
pub proof fn all_coins_are_told(a: QuerierView, b: QuerierView, address: Seq<char>)
    requires
        a.bank_reply(BankQueryView::AllBalances { address }) == b.bank_reply(
            BankQueryView::AllBalances { address },
        ),
    ensures
        coins_held(a.native, address) == coins_held(b.native, address),
{
    all_balances_json_is_unambiguous(coins_held(a.native, address), coins_held(b.native, address));
}

/// With luna among the coins a taxed debit takes nothing, whatever the taxes.
pub proof fn luna_stops_a_taxed_debit(
    q: QuerierView,
    address: Seq<char>,
    taken: Seq<CoinView>,
    taxes: Seq<u128>,
    i: int,
)
    requires
        0 <= i < taken.len(),
        taken[i].0 == "uluna"@,
    ensures
        q.taxed_debit(address, taken, taxes) == q,
{
    lemma_denom_index(taken, "uluna"@);
}

/// Without luna a taxed debit takes the coins with the tax on each; where no tax is due that is a
/// plain debit.
pub proof fn taxed_debit_without_tax_is_plain(
    q: QuerierView,
    address: Seq<char>,
    taken: Seq<CoinView>,
    taxes: Seq<u128>,
)
    requires
        !has_denom(taken, "uluna"@),
        taxes.len() == taken.len(),
        forall|i: int| 0 <= i < taxes.len() ==> #[trigger] taxes[i] == 0,
    ensures
        q.taxed_debit(address, taken, taxes) == q.native_debit(address, taken),
        q.taxed_debit_fits(address, taken, taxes) == q.native_debit_fits(address, taken),
{
    lemma_denom_index(taken, "uluna"@);
    assert(taxed(taken, taxes) =~= taken);
}

/// After a taxed debit without luna, a query for a denomination is answered with what there was of
/// it less what was taken and the taxes.
pub proof fn taxed_debit_is_seen(
    q: QuerierView,
    address: Seq<char>,
    taken: Seq<CoinView>,
    taxes: Seq<u128>,
    denom: Seq<char>,
)
    requires
        q.taxed_debit_fits(address, taken, taxes),
        !has_denom(taken, "uluna"@),
    ensures
        q.taxed_debit(address, taken, taxes).bank_reply(BankQueryView::Balance { address, denom })
            == answer(
            bank_balance_json(
                (
                    denom,
                    (amount_of(coins_held(q.native, address), denom) - sum_of(
                        taxed(taken, taxes),
                        denom,
                    )) as u128,
                ),
            ),
        ),
{
    native_debit_is_seen(q, address, taxed(taken, taxes), denom);
}

/// The answer that describes a token with the supply `supply`.
pub open spec fn description(contract_addr: Seq<char>, supply: nat) -> ReplyView {
    answer(token_info_json(contract_addr + "Token"@, "TOK"@, 6, supply as u128))
}

/// Tokens stay listed when balances are added and taken away.
pub(crate) proof fn lemma_stays_listed(
    tokens: TokensView,
    moved: Seq<(Seq<char>, AmountsView)>,
    contract_addr: Seq<char>,
)
    requires
        tokens.contains_key(contract_addr),
    ensures
        credit_tokens(tokens, moved).contains_key(contract_addr),
        debit_tokens(tokens, moved).contains_key(contract_addr),
    decreases moved.len(),
{
    if moved.len() > 0 {
        lemma_stays_listed(tokens, moved.drop_last(), contract_addr);
    }
}

/// After token balances were added, a query for a balance of a token that is listed is answered
/// with what there was and what was added.
pub proof fn token_credit_is_seen(
    q: QuerierView,
    added: Seq<(Seq<char>, AmountsView)>,
    contract_addr: Seq<char>,
    address: Seq<char>,
)
    requires
        credit_tokens_fits(q.tokens, added),
        q.token_credit(added).tokens.contains_key(contract_addr),
    ensures
        balance_of(q.tokens, contract_addr, address) + moved_of(added, contract_addr, address)
            <= u128::MAX,
        q.token_credit(added).cw20_reply(contract_addr, Some(Cw20MsgView::Balance { address }))
            == Some(
            answer(
                number_field_json(
                    "balance"@,
                    (balance_of(q.tokens, contract_addr, address) + moved_of(
                        added,
                        contract_addr,
                        address,
                    )) as u128,
                ),
            ),
        ),
{
    credit_adds_to_each_balance(q.tokens, added, contract_addr, address);
}

/// After token balances were taken away, a query for a balance of a token that is listed is
/// answered with what there was less what was taken.
pub proof fn token_debit_is_seen(
    q: QuerierView,
    taken: Seq<(Seq<char>, AmountsView)>,
    contract_addr: Seq<char>,
    address: Seq<char>,
)
    requires
        debit_tokens_fits(q.tokens, taken),
        q.token_debit(taken).tokens.contains_key(contract_addr),
    ensures
        moved_of(taken, contract_addr, address) <= balance_of(q.tokens, contract_addr, address),
        q.token_debit(taken).cw20_reply(contract_addr, Some(Cw20MsgView::Balance { address }))
            == Some(
            answer(
                number_field_json(
                    "balance"@,
                    (balance_of(q.tokens, contract_addr, address) - moved_of(
                        taken,
                        contract_addr,
                        address,
                    )) as u128,
                ),
            ),
        ),
{
    debit_takes_from_each_balance(q.tokens, taken, contract_addr, address);
}

/// Token balances that were just added can be taken away again, and then every query for a balance
/// of a token that was listed is answered as before.
pub proof fn token_debit_undoes_credit(
    q: QuerierView,
    moved: Seq<(Seq<char>, AmountsView)>,
    contract_addr: Seq<char>,
    address: Seq<char>,
)
    requires
        credit_tokens_fits(q.tokens, moved),
        q.tokens.contains_key(contract_addr),
    ensures
        debit_tokens_fits(q.token_credit(moved).tokens, moved),
        q.token_credit(moved).token_debit(moved).cw20_reply(
            contract_addr,
            Some(Cw20MsgView::Balance { address }),
        ) == q.cw20_reply(contract_addr, Some(Cw20MsgView::Balance { address })),
{
    tokens::debit_undoes_credit(q.tokens, moved, contract_addr, address);
    lemma_stays_listed(q.tokens, moved, contract_addr);
    lemma_stays_listed(credit_tokens(q.tokens, moved), moved, contract_addr);
}

/// The supply in the description of a token follows its balances: it rises by what is added to
/// them, and falls by what is taken from them.
pub proof fn supply_follows_balances(
    querier: WasmMockQuerier,
    moved: Seq<(Seq<char>, AmountsView)>,
    contract_addr: Seq<char>,
)
    requires
        querier@.tokens.contains_key(contract_addr),
    ensures
        credit_tokens_fits(querier@.tokens, moved) ==> querier@.token_credit(
            moved,
        ).tokens.contains_key(contract_addr) && total(
            querier@.token_credit(moved).tokens[contract_addr],
        ) == total(querier@.tokens[contract_addr]) + moved_amount(moved, contract_addr)
            && querier@.token_credit(moved).token_info_reply(contract_addr, token_info_key())
            == Some(
            description(
                contract_addr,
                (total(querier@.tokens[contract_addr]) + moved_amount(moved, contract_addr)) as nat,
            ),
        ),
        debit_tokens_fits(querier@.tokens, moved) ==> querier@.token_debit(
            moved,
        ).tokens.contains_key(contract_addr) && total(
            querier@.token_debit(moved).tokens[contract_addr],
        ) == total(querier@.tokens[contract_addr]) - moved_amount(moved, contract_addr)
            && querier@.token_debit(moved).token_info_reply(contract_addr, token_info_key())
            == Some(
            description(
                contract_addr,
                (total(querier@.tokens[contract_addr]) - moved_amount(moved, contract_addr)) as nat,
            ),
        ),
{
    let tokens = querier@.tokens;
    held_tokens_are_finite(querier, contract_addr);
    lemma_stays_listed(tokens, moved, contract_addr);
    if credit_tokens_fits(tokens, moved) {
        credit_raises_supply(tokens, moved, contract_addr);
    }
    if debit_tokens_fits(tokens, moved) {
        debit_lowers_supply(tokens, moved, contract_addr);
    }
}

/// One amount that is added to an account of a token raises the supply in the token's description
/// by it, wherever the supply stays within the largest balance; one that the account has, taken
/// from it, lowers the supply by it. The name, the symbol and the decimals stay, and so does the
/// description of every other token.
pub proof fn supply_changes_by_the_amount(
    querier: WasmMockQuerier,
    contract_addr: Seq<char>,
    account: Seq<char>,
    amount: u128,
    other: Seq<char>,
)
    requires
        querier@.tokens.contains_key(contract_addr),
        other != contract_addr,
    ensures
        ({
            let moved = seq![(contract_addr, seq![(account, amount)])];
            let supply = total(querier@.tokens[contract_addr]);
            let after = querier@.token_credit(moved);
            supply + amount <= u128::MAX ==> {
                &&& credit_tokens_fits(querier@.tokens, moved)
                &&& after.answers_token_info(contract_addr, token_info_key())
                &&& after.token_info_reply(contract_addr, token_info_key()) == Some(
                    description(contract_addr, supply + amount as nat),
                )
                &&& after.token_info_reply(other, token_info_key()) == querier@.token_info_reply(
                    other,
                    token_info_key(),
                )
            }
        }),
        ({
            let moved = seq![(contract_addr, seq![(account, amount)])];
            let supply = total(querier@.tokens[contract_addr]);
            let after = querier@.token_debit(moved);
            amount <= balance_of(querier@.tokens, contract_addr, account) ==> {
                &&& debit_tokens_fits(querier@.tokens, moved)
                &&& amount <= supply
                &&& supply <= u128::MAX ==> after.answers_token_info(
                    contract_addr,
                    token_info_key(),
                )
                &&& after.token_info_reply(contract_addr, token_info_key()) == Some(
                    description(contract_addr, (supply - amount) as nat),
                )
                &&& after.token_info_reply(other, token_info_key()) == querier@.token_info_reply(
                    other,
                    token_info_key(),
                )
            }
        }),
{
    let tokens = querier@.tokens;
    let accounts = tokens[contract_addr];
    let amounts = seq![(account, amount)];
    let moved = seq![(contract_addr, amounts)];
    held_tokens_are_finite(querier, contract_addr);
    if accounts.contains_key(account) {
        lemma_total_remove(accounts, account);
    }
    assert(balance_in(accounts, account) <= total(accounts));
    assert(amounts.drop_last() =~= Seq::empty());
    assert(moved.drop_last() =~= Seq::empty());
    reveal_with_fuel(credit_tokens, 2);
    reveal_with_fuel(debit_tokens, 2);
    reveal_with_fuel(credit_tokens_fits, 2);
    reveal_with_fuel(debit_tokens_fits, 2);
    reveal_with_fuel(tokens::credit_accounts, 2);
    reveal_with_fuel(tokens::debit_accounts, 2);
    reveal_with_fuel(tokens::credit_accounts_fits, 2);
    reveal_with_fuel(tokens::debit_accounts_fits, 2);
    reveal_with_fuel(moved_amount, 2);
    reveal_with_fuel(sum_amounts, 2);
    supply_follows_balances(querier, moved, contract_addr);
}

/// The supply of accounts that are listed once each is the sum of what is listed.
pub proof fn supply_of_listed_accounts(amounts: AmountsView)
    requires
        forall|i: int, j: int|
            0 <= i < j < amounts.len() ==> (#[trigger] amounts[i]).0 != (#[trigger] amounts[j]).0,
    ensures
        list_map(amounts).dom().finite(),
        total(list_map(amounts)) == sum_amounts(amounts),
    decreases amounts.len(),
{
    if amounts.len() == 0 {
        assert(list_map(amounts).dom() =~= Set::<Seq<char>>::empty());
    } else {
        let rest = amounts.drop_last();
        let (account, amount) = amounts.last();
        supply_of_listed_accounts(rest);
        assert forall|i: int| 0 <= i < rest.len() implies (#[trigger] rest[i]).0 != account by {
            assert(amounts[i].0 != amounts[amounts.len() - 1].0);
        }
        only_entries_are_listed(rest, account);
        lemma_total_insert(list_map(rest), account, amount);
    }
}

/// A balance that was listed is held, where no later entry is for the same token or for the same
/// account of it.
pub proof fn listed_balance_is_held(balances: Seq<(Seq<char>, AmountsView)>, i: int, j: int)
    requires
        0 <= i < balances.len(),
        0 <= j < balances[i].1.len(),
        forall|k: int| i < k < balances.len() ==> (#[trigger] balances[k]).0 != balances[i].0,
        forall|k: int|
            j < k < balances[i].1.len() ==> (#[trigger] balances[i].1[k]).0
                != balances[i].1[j].0,
    ensures
        token_map(balances).contains_key(balances[i].0),
        balance_of(token_map(balances), balances[i].0, balances[i].1[j].0) == balances[i].1[j].1,
{
    let entries = token_accounts(balances);
    assert forall|k: int| i < k < entries.len() implies (#[trigger] entries[k]).0
        != entries[i].0 by {
        assert(balances[k].0 != balances[i].0);
    }
    last_entry_counts(entries, i);
    last_entry_counts(balances[i].1, j);
}

/// The key of a balance is never that of a token's description, and the canonical address can be
/// read off it.
pub proof fn balance_keys_are_their_own(
    q: QuerierView,
    contract_addr: Seq<char>,
    canonical: Seq<u8>,
)
    ensures
        balance_prefix() + canonical != token_info_key(),
        q.answers_wasm_raw(contract_addr, balance_prefix() + canonical),
        q.tokens.contains_key(contract_addr) ==> q.wasm_raw_reply(
            contract_addr,
            balance_prefix() + canonical,
        ) == stored_balance_reply(
            q.tokens[contract_addr],
            balance_prefix() + canonical,
            human_address(canonical),
        ),
{
    let key = balance_prefix() + canonical;
    let balance = encode_utf8("balance"@);
    let token_info = encode_utf8("token_info"@);
    lemma_key_names();
    if key == token_info_key() {
        assert(token_info_key() =~= length_prefixed(token_info) + Seq::<u8>::empty());
        length_prefix_is_unambiguous(balance, canonical, token_info, Seq::empty());
    }
    assert(key.skip(balance_prefix().len() as int) =~= canonical);
}

/// The two ways to ask for a balance agree: where an account is listed, both answers hold what it
/// has.
pub proof fn both_balance_queries_agree(
    q: QuerierView,
    contract_addr: Seq<char>,
    canonical: Seq<u8>,
    address: Seq<char>,
)
    requires
        q.tokens.contains_key(contract_addr),
        q.tokens[contract_addr].contains_key(address),
        human_address(canonical) == Some(address),
    ensures
        q.wasm_raw_reply(contract_addr, balance_prefix() + canonical) == answer(
            number_json(balance_of(q.tokens, contract_addr, address)),
        ),
        q.cw20_reply(contract_addr, Some(Cw20MsgView::Balance { address })) == Some(
            answer(number_field_json("balance"@, balance_of(q.tokens, contract_addr, address))),
        ),
{
    balance_keys_are_their_own(q, contract_addr, canonical);
}

/// After taxes were set, a query for the cap of a denomination is answered with its last entry, and
/// with zero where it has none.
pub proof fn caps_that_were_set_are_answered(q: QuerierView, caps: AmountsView, denom: Seq<char>)
    ensures
        forall|i: int|
            0 <= i < caps.len() && (#[trigger] caps[i]).0 == denom && (forall|j: int|
                i < j < caps.len() ==> (#[trigger] caps[j]).0 != denom) ==> (QuerierView {
                tax_caps: list_map(caps),
                ..q
            }).tax_cap_reply(denom) == answer(number_field_json("cap"@, caps[i].1)),
        (forall|j: int| 0 <= j < caps.len() ==> (#[trigger] caps[j]).0 != denom) ==> (QuerierView {
            tax_caps: list_map(caps),
            ..q
        }).tax_cap_reply(denom) == answer(number_field_json("cap"@, 0)),
{
    let after = QuerierView { tax_caps: list_map(caps), ..q };
    assert forall|i: int|
        0 <= i < caps.len() && (#[trigger] caps[i]).0 == denom && (forall|j: int|
            i < j < caps.len() ==> (#[trigger] caps[j]).0 != denom) implies after.tax_cap_reply(
        denom,
    ) == answer(number_field_json("cap"@, caps[i].1)) by {
        last_entry_counts(caps, i);
    }
    if forall|j: int| 0 <= j < caps.len() ==> (#[trigger] caps[j]).0 != denom {
        only_entries_are_listed(caps, denom);
    }
}

/// The answers about taxes tell them: queriers that answer alike have the same rate and the same
/// cap.
pub proof fn taxes_are_told(a: QuerierView, b: QuerierView, denom: Seq<char>)
    ensures
        a.tax_rate_reply() == b.tax_rate_reply() ==> a.tax_rate == b.tax_rate,
        a.tax_cap_reply(denom) == b.tax_cap_reply(denom) ==> balance_in(a.tax_caps, denom)
            == balance_in(b.tax_caps, denom),
{
    if a.tax_rate_reply() == b.tax_rate_reply() {
        decimal_field_json_is_unambiguous(
            "rate"@,
            a.tax_rate.atomics as nat,
            b.tax_rate.atomics as nat,
        );
    }
    if a.tax_cap_reply(denom) == b.tax_cap_reply(denom) {
        number_field_json_is_unambiguous(
            "cap"@,
            balance_in(a.tax_caps, denom),
            balance_in(b.tax_caps, denom),
        );
    }
}

/// The answers about a token tell its balances and its supply: queriers that answer alike have the
/// same.
pub proof fn token_balances_are_told(
    a: QuerierView,
    b: QuerierView,
    contract_addr: Seq<char>,
    address: Seq<char>,
)
    requires
        a.tokens.contains_key(contract_addr),
        b.tokens.contains_key(contract_addr),
    ensures
        a.cw20_reply(contract_addr, Some(Cw20MsgView::Balance { address })) == b.cw20_reply(
            contract_addr,
            Some(Cw20MsgView::Balance { address }),
        ) ==> balance_of(a.tokens, contract_addr, address) == balance_of(
            b.tokens,
            contract_addr,
            address,
        ),
        a.answers_token_info(contract_addr, token_info_key()) && b.answers_token_info(
            contract_addr,
            token_info_key(),
        ) && a.token_info_reply(contract_addr, token_info_key()) == b.token_info_reply(
            contract_addr,
            token_info_key(),
        ) ==> total(a.tokens[contract_addr]) == total(b.tokens[contract_addr]),
{
    let msg = Some(Cw20MsgView::Balance { address });
    if a.cw20_reply(contract_addr, msg) == b.cw20_reply(contract_addr, msg) {
        number_field_json_is_unambiguous(
            "balance"@,
            balance_of(a.tokens, contract_addr, address),
            balance_of(b.tokens, contract_addr, address),
        );
    }
    if a.token_info_reply(contract_addr, token_info_key()) == b.token_info_reply(
        contract_addr,
        token_info_key(),
    ) {
        token_info_json_tells_the_supply(
            contract_addr + "Token"@,
            "TOK"@,
            6,
            total(a.tokens[contract_addr]) as u128,
            total(b.tokens[contract_addr]) as u128,
        );
    }
}

/// A path without swaps leaves the amount as it is.
pub proof fn empty_path_keeps_the_amount(
    step: SwapStep,
    offer: u128,
    outcome: u128,
)
    ensures
        swap_outcome(step, offer, Seq::empty(), outcome) <==> outcome == offer,
{
}

/// A path of swaps can be gone in two parts: its outcomes are those of the second part for the
/// outcomes of the first.
pub proof fn swap_paths_compose(
    step: SwapStep,
    offer: u128,
    first: Seq<u64>,
    second: Seq<u64>,
    outcome: u128,
)
    ensures
        swap_outcome(step, offer, first + second, outcome) <==> exists|between: u128| #[trigger]
            swap_outcome(step, offer, first, between) && swap_outcome(
                step,
                between,
                second,
                outcome,
            ),
    decreases second.len(),
{
    if second.len() == 0 {
        assert(first + second =~= first);
        assert(swap_outcome(step, outcome, second, outcome));
    } else {
        let path = first + second;
        let rest = second.drop_last();
        assert(path.drop_last() =~= first + rest);
        assert(path.last() == second.last());
        if swap_outcome(step, offer, path, outcome) {
            let before = choose|before: u128|
                swap_outcome(step, offer, path.drop_last(), before) && #[trigger] step(
                    before,
                    path.last(),
                    outcome,
                );
            swap_paths_compose(step, offer, first, rest, before);
            let between = choose|between: u128| #[trigger]
                swap_outcome(step, offer, first, between) && swap_outcome(
                    step,
                    between,
                    rest,
                    before,
                );
            assert(step(before, second.last(), outcome));
            assert(swap_outcome(step, between, second, outcome));
        }
        if exists|between: u128| #[trigger]
            swap_outcome(step, offer, first, between) && swap_outcome(
                step,
                between,
                second,
                outcome,
            ) {
            let between = choose|between: u128| #[trigger]
                swap_outcome(step, offer, first, between) && swap_outcome(
                    step,
                    between,
                    second,
                    outcome,
                );
            let before = choose|before: u128|
                swap_outcome(step, between, rest, before) && #[trigger] step(
                    before,
                    second.last(),
                    outcome,
                );
            swap_paths_compose(step, offer, first, rest, before);
            assert(step(before, path.last(), outcome));
        }
    }
}

/// Where a step has one outcome for each amount and price, a path of swaps has at most one.
pub proof fn swap_outcome_is_unique(
    step: SwapStep,
    offer: u128,
    prices: Seq<u64>,
    a: u128,
    b: u128,
)
    requires
        forall|amount: u128, price: u64, x: u128, y: u128| #[trigger]
            step(amount, price, x) && #[trigger] step(amount, price, y) ==> x == y,
        swap_outcome(step, offer, prices, a),
        swap_outcome(step, offer, prices, b),
    ensures
        a == b,
    decreases prices.len(),
{
    if prices.len() > 0 {
        let before_a = choose|before: u128|
            swap_outcome(step, offer, prices.drop_last(), before) && #[trigger] step(
                before,
                prices.last(),
                a,
            );
        let before_b = choose|before: u128|
            swap_outcome(step, offer, prices.drop_last(), before) && #[trigger] step(
                before,
                prices.last(),
                b,
            );
        swap_outcome_is_unique(step, offer, prices.drop_last(), before_a, before_b);
    }
}

/// A swap goes by the price that was set last for its pair of assets, and setting it changes no
/// other price.
pub proof fn price_that_was_set_is_used(
    q: QuerierView,
    offer: Seq<char>,
    ask: Seq<char>,
    price: u64,
    operation: SwapOperationView,
)
    ensures
        operation.pair() == (offer, ask) ==> q.with_price(offer, ask, price).has_prices(
            seq![operation],
        ) && q.with_price(offer, ask, price).operation_prices(seq![operation]) == seq![price],
        operation.pair() != (offer, ask) ==> q.with_price(offer, ask, price).has_prices(
            seq![operation],
        ) == q.has_prices(seq![operation]) && q.with_price(offer, ask, price).operation_prices(
            seq![operation],
        ) == q.operation_prices(seq![operation]),
{
    let after = q.with_price(offer, ask, price);
    let path = seq![operation];
    assert(path[0].pair() == operation.pair());
    if operation.pair() == (offer, ask) {
        assert(after.operation_prices(path) =~= seq![price]);
    } else {
        assert(after.operation_prices(path) =~= q.operation_prices(path));
        assert(q.has_prices(path) == q.prices.contains_key(operation.pair()));
        assert(after.has_prices(path) == after.prices.contains_key(operation.pair()));
    }
}

} // verus!
