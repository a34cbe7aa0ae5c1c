//! What every change does to what is held: one coin, one account or one entry at a time, and many
//! in turn.
use vstd::prelude::*;

use crate::base::{coins_held, set_holdings};
use crate::coins::{
    self, amount_of, credit_all, credit_all_fits, debit_all, debit_all_fits, denom_index,
    has_denom, lemma_denom_index, lemma_denom_index_is, sum_of, taxed,
};
use crate::json::{bank_balance_json, decimal_field_json, number_field_json};
use crate::laws::lemma_stays_listed;
use crate::model::{QuerierView, SwapStep};
use crate::tokens::{
    accounts_of, balance_in, balance_of, credit_accounts, credit_accounts_fits,
    credit_adds_to_each_balance, credit_tokens, credit_tokens_fits, debit_accounts,
    debit_accounts_fits, debit_takes_from_each_balance, debit_tokens, debit_tokens_fits,
    last_entry_counts, lemma_total_insert, list_map, moved_amount, moved_of,
    only_entries_are_listed, sum_amounts, token_accounts, token_map, total, AccountsView,
    AmountsView, TokensView,
};
use crate::types::{
    BankQueryView, CoinView, Cw20MsgView, Decimal, ReplyView, RequestView, SystemErrorView,
    TerraQueryView, TerraRoute,
};
use crate::wire::{cw20_msg_of, request_of, router_msg_of};

verus! {

/// What is held of a denomination is the amount of its first coin, which stands at `i`, and zero
/// where there is none and `i` is the end.
pub proof fn first_coin_counts(coins: Seq<CoinView>, denom: Seq<char>, i: int)
    requires
        0 <= i <= coins.len(),
        forall|j: int| 0 <= j < i ==> (#[trigger] coins[j]).0 != denom,
        i < coins.len() ==> coins[i].0 == denom,
    ensures
        denom_index(coins, denom) == i,
        has_denom(coins, denom) <==> i < coins.len(),
        i < coins.len() ==> amount_of(coins, denom) == coins[i].1,
        i == coins.len() ==> amount_of(coins, denom) == 0,
{
    lemma_denom_index_is(coins, denom, i);
}

/// The coins of an address are those that are listed for it, and none where it is not listed.
pub proof fn listed_coins_are_held(balances: Map<Seq<char>, Seq<CoinView>>, address: Seq<char>)
    ensures
        balances.contains_key(address) ==> coins_held(balances, address) == balances[address],
        !balances.contains_key(address) ==> coins_held(balances, address).len() == 0,
{
}

/// The sum of a denomination over one list and another is the sum of both, and over one coin its
/// amount where it is of the denomination.
pub proof fn sums_add_up(a: Seq<CoinView>, b: Seq<CoinView>, coin: CoinView, denom: Seq<char>)
    ensures
        sum_of(Seq::empty(), denom) == 0,
        coin.0 == denom ==> sum_of(seq![coin], denom) == coin.1,
        coin.0 != denom ==> sum_of(seq![coin], denom) == 0,
        sum_of(a + b, denom) == sum_of(a, denom) + sum_of(b, denom),
    decreases b.len(),
{
    reveal_with_fuel(sum_of, 2);
    assert(seq![coin].drop_last() =~= Seq::empty());
    if b.len() == 0 {
        assert(a + b =~= a);
    } else {
        sums_add_up(a, b.drop_last(), coin, denom);
        assert((a + b).drop_last() =~= a + b.drop_last());
    }
}

/// Adding one coin adds its amount to the first coin of its denomination, which stands at `i`, and
/// puts it at the end where there is none and `i` is the end. It can be done where the sum does
/// not exceed the largest amount.
pub proof fn credit_of_one_coin(coins: Seq<CoinView>, coin: CoinView, i: int)
    requires
        0 <= i <= coins.len(),
        forall|j: int| 0 <= j < i ==> (#[trigger] coins[j]).0 != coin.0,
        i < coins.len() ==> coins[i].0 == coin.0,
    ensures
        credit_all(coins, Seq::empty()) == coins,
        credit_all_fits(coins, Seq::empty()),
        i < coins.len() ==> credit_all(coins, seq![coin]) == coins.update(
            i,
            (coin.0, (coins[i].1 + coin.1) as u128),
        ),
        i < coins.len() ==> (credit_all_fits(coins, seq![coin]) <==> coins[i].1 + coin.1
            <= u128::MAX),
        i == coins.len() ==> credit_all(coins, seq![coin]) == coins.push(coin)
            && credit_all_fits(coins, seq![coin]),
{
    reveal_with_fuel(credit_all, 2);
    reveal_with_fuel(credit_all_fits, 2);
    assert(seq![coin].drop_last() =~= Seq::empty());
    lemma_denom_index_is(coins, coin.0, i);
}

/// Adding the coins of one list and then those of another is adding those of both in turn.
pub proof fn credits_are_made_in_turn(coins: Seq<CoinView>, a: Seq<CoinView>, b: Seq<CoinView>)
    ensures
        credit_all(coins, a + b) == credit_all(credit_all(coins, a), b),
        credit_all_fits(coins, a + b) <==> credit_all_fits(coins, a) && credit_all_fits(
            credit_all(coins, a),
            b,
        ),
    decreases b.len(),
{
    if b.len() == 0 {
        assert(a + b =~= a);
    } else {
        credits_are_made_in_turn(coins, a, b.drop_last());
        assert((a + b).drop_last() =~= a + b.drop_last());
    }
}

/// Taking one coin away takes its amount from the first coin of its denomination, which stands at
/// `i`. It can be done where there is such a coin, and enough of it.
pub proof fn debit_of_one_coin(coins: Seq<CoinView>, coin: CoinView, i: int)
    requires
        0 <= i <= coins.len(),
        forall|j: int| 0 <= j < i ==> (#[trigger] coins[j]).0 != coin.0,
        i < coins.len() ==> coins[i].0 == coin.0,
    ensures
        debit_all(coins, Seq::empty()) == coins,
        debit_all_fits(coins, Seq::empty()),
        i < coins.len() ==> debit_all(coins, seq![coin]) == coins.update(
            i,
            (coin.0, (coins[i].1 - coin.1) as u128),
        ),
        debit_all_fits(coins, seq![coin]) <==> i < coins.len() && coin.1 <= coins[i].1,
{
    reveal_with_fuel(debit_all, 2);
    reveal_with_fuel(debit_all_fits, 2);
    assert(seq![coin].drop_last() =~= Seq::empty());
    lemma_denom_index_is(coins, coin.0, i);
}

/// Taking the coins of one list and then those of another is taking those of both in turn.
pub proof fn debits_are_made_in_turn(coins: Seq<CoinView>, a: Seq<CoinView>, b: Seq<CoinView>)
    ensures
        debit_all(coins, a + b) == debit_all(debit_all(coins, a), b),
        debit_all_fits(coins, a + b) <==> debit_all_fits(coins, a) && debit_all_fits(
            debit_all(coins, a),
            b,
        ),
    decreases b.len(),
{
    if b.len() == 0 {
        assert(a + b =~= a);
    } else {
        debits_are_made_in_turn(coins, a, b.drop_last());
        assert((a + b).drop_last() =~= a + b.drop_last());
    }
}

/// Adding coins to an address and then more is adding all of them in turn, and so is taking them.
pub proof fn native_changes_are_made_in_turn(
    q: QuerierView,
    address: Seq<char>,
    a: Seq<CoinView>,
    b: Seq<CoinView>,
)
    ensures
        q.native_credit(address, a + b) == q.native_credit(address, a).native_credit(address, b),
        q.native_credit_fits(address, a + b) <==> q.native_credit_fits(address, a)
            && q.native_credit(address, a).native_credit_fits(address, b),
        q.native_debit(address, a + b) == q.native_debit(address, a).native_debit(address, b),
        q.native_debit_fits(address, a + b) <==> q.native_debit_fits(address, a) && q.native_debit(
            address,
            a,
        ).native_debit_fits(address, b),
{
    let held = coins_held(q.native, address);
    credits_are_made_in_turn(held, a, b);
    debits_are_made_in_turn(held, a, b);
    assert(q.native_credit(address, a + b) =~= q.native_credit(address, a).native_credit(
        address,
        b,
    ));
    assert(q.native_debit(address, a + b) =~= q.native_debit(address, a).native_debit(address, b));
}

/// One coin that is added to an address or taken from it changes its first coin of the
/// denomination, which stands at `i` among those `held`, or makes a new one at the end; nothing
/// else changes.
pub proof fn native_change_of_one_coin(
    q: QuerierView,
    address: Seq<char>,
    coin: CoinView,
    held: Seq<CoinView>,
    i: int,
)
    requires
        q.native.contains_key(address) ==> held == q.native[address],
        !q.native.contains_key(address) ==> held == Seq::<CoinView>::empty(),
        0 <= i <= held.len(),
        forall|j: int| 0 <= j < i ==> (#[trigger] held[j]).0 != coin.0,
        i < held.len() ==> held[i].0 == coin.0,
    ensures
        ({
            let more = if i < held.len() {
                held.update(i, (coin.0, (held[i].1 + coin.1) as u128))
            } else {
                held.push(coin)
            };
            &&& q.native_credit(address, seq![coin]) == QuerierView {
                native: q.native.insert(address, more),
                ..q
            }
            &&& q.native_credit_fits(address, seq![coin]) <==> (i < held.len() ==> held[i].1
                + coin.1 <= u128::MAX)
            &&& i < held.len() ==> q.native_debit(address, seq![coin]) == QuerierView {
                native: q.native.insert(
                    address,
                    held.update(i, (coin.0, (held[i].1 - coin.1) as u128)),
                ),
                ..q
            }
            &&& q.native_debit_fits(address, seq![coin]) <==> i < held.len() && coin.1 <= held[i].1
            &&& q.native_credit(address, Seq::empty()) == QuerierView {
                native: q.native.insert(address, held),
                ..q
            }
            &&& q.native_credit_fits(address, Seq::empty())
            &&& q.native_debit(address, Seq::empty()) == QuerierView {
                native: q.native.insert(address, held),
                ..q
            }
            &&& q.native_debit_fits(address, Seq::empty())
        }),
{
    credit_of_one_coin(held, coin, i);
    debit_of_one_coin(held, coin, i);
}

/// The amounts with their taxes sum up to the amounts and the taxes.
proof fn lemma_sum_of_taxed(
    taken: Seq<CoinView>,
    taxes: Seq<u128>,
    due: Seq<CoinView>,
    denom: Seq<char>,
)
    requires
        taken.len() <= taxes.len(),
        due.len() == taken.len(),
        forall|i: int| 0 <= i < due.len() ==> #[trigger] due[i] == (taken[i].0, taxes[i]),
        forall|i: int| 0 <= i < taken.len() ==> (#[trigger] taken[i]).1 + taxes[i] <= u128::MAX,
    ensures
        sum_of(taxed(taken, taxes), denom) == sum_of(taken, denom) + sum_of(due, denom),
    decreases taken.len(),
{
    if taken.len() > 0 {
        let rest = taken.drop_last();
        let last = taken.len() - 1;
        assert forall|i: int| 0 <= i < rest.len() implies (#[trigger] rest[i]).1 + taxes[i]
            <= u128::MAX by {
            assert(taken[i].1 + taxes[i] <= u128::MAX);
        }
        lemma_sum_of_taxed(rest, taxes, due.drop_last(), denom);
        assert(taxed(taken, taxes).drop_last() =~= taxed(rest, taxes));
        assert(taken[last].1 + taxes[last] <= u128::MAX);
        assert(due[last] == (taken[last].0, taxes[last]));
        assert(taxed(taken, taxes).last() == (
            taken[last].0,
            (taken[last].1 + taxes[last]) as u128,
        ));
    }
}

/// After a taxed debit without luna, what an address holds of each denomination is what there was
/// less the amounts taken of it and less the taxes on the coins of it. Other addresses hold what
/// they held, and nothing but native balances changes.
pub proof fn taxed_debit_takes_amounts_and_taxes(
    q: QuerierView,
    address: Seq<char>,
    taken: Seq<CoinView>,
    taxes: Seq<u128>,
    denom: Seq<char>,
    other: Seq<char>,
)
    requires
        q.taxed_debit_fits(address, taken, taxes),
        forall|i: int| 0 <= i < taken.len() ==> (#[trigger] taken[i]).0 != "uluna"@,
        other != address,
    ensures
        ({
            let due = Seq::new(taken.len(), |i: int| (taken[i].0, taxes[i]));
            let after = q.taxed_debit(address, taken, taxes);
            let left = amount_of(coins_held(q.native, address), denom) - sum_of(taken, denom)
                - sum_of(due, denom);
            &&& amount_of(coins_held(after.native, address), denom) == left
            &&& after.bank_reply(BankQueryView::Balance { address, denom }) == Ok::<
                Result<Seq<u8>, Seq<char>>,
                SystemErrorView,
            >(Ok(bank_balance_json((denom, left as u128))))
            &&& coins_held(after.native, other) == coins_held(q.native, other)
            &&& after == QuerierView { native: after.native, ..q }
        }),
{
    let due = Seq::new(taken.len(), |i: int| (taken[i].0, taxes[i]));
    lemma_denom_index(taken, "uluna"@);
    lemma_denom_index_is(taken, "uluna"@, taken.len() as int);
    lemma_sum_of_taxed(taken, taxes, due, denom);
    coins::debit_takes_from_each_denom(
        coins_held(q.native, address),
        taxed(taken, taxes),
        denom,
    );
}

/// A taxed debit fits where every coin before the first luna, which stands at `i`, has a tax and
/// does not exceed the largest amount with it, and, where there is no luna and `i` is the end,
/// where the coins with their taxes can be taken; these are then taken in place of the coins.
pub proof fn taxed_debit_is_a_debit(
    q: QuerierView,
    address: Seq<char>,
    taken: Seq<CoinView>,
    taxes: Seq<u128>,
    i: int,
)
    requires
        0 <= i <= taken.len(),
        forall|j: int| 0 <= j < i ==> (#[trigger] taken[j]).0 != "uluna"@,
        i < taken.len() ==> taken[i].0 == "uluna"@,
    ensures
        ({
            let sums = Seq::new(
                taken.len(),
                |j: int| (taken[j].0, (taken[j].1 + taxes[j]) as u128),
            );
            &&& i < taken.len() ==> q.taxed_debit(address, taken, taxes) == q
            &&& i == taken.len() ==> q.taxed_debit(address, taken, taxes) == q.native_debit(
                address,
                sums,
            )
            &&& q.taxed_debit_fits(address, taken, taxes) <==> {
                &&& i <= taxes.len()
                &&& forall|j: int|
                    0 <= j < i ==> (#[trigger] taken[j]).1 + taxes[j] <= u128::MAX
                &&& i == taken.len() ==> q.native_debit_fits(address, sums)
            }
        }),
{
    let sums = Seq::new(taken.len(), |j: int| (taken[j].0, (taken[j].1 + taxes[j]) as u128));
    lemma_denom_index_is(taken, "uluna"@, i);
    assert(taxed(taken, taxes) =~= sums);
}

/// Setting the coins of one address replaces them, and setting those of more is done in turn.
pub proof fn holdings_are_set_in_turn(
    balances: Map<Seq<char>, Seq<CoinView>>,
    address: Seq<char>,
    coins: Seq<CoinView>,
    a: Seq<(Seq<char>, Seq<CoinView>)>,
    b: Seq<(Seq<char>, Seq<CoinView>)>,
)
    ensures
        set_holdings(balances, Seq::empty()) == balances,
        set_holdings(balances, seq![(address, coins)]) == balances.insert(address, coins),
        set_holdings(balances, a + b) == set_holdings(set_holdings(balances, a), b),
    decreases b.len(),
{
    reveal_with_fuel(set_holdings, 2);
    assert(seq![(address, coins)].drop_last() =~= Seq::empty());
    if b.len() == 0 {
        assert(a + b =~= a);
    } else {
        holdings_are_set_in_turn(balances, address, coins, a, b.drop_last());
        assert((a + b).drop_last() =~= a + b.drop_last());
    }
}

/// A balance is what is listed for the account, and zero where the account or the token is not
/// listed.
pub proof fn listed_balances_count(tokens: TokensView, contract: Seq<char>, account: Seq<char>)
    ensures
        tokens.contains_key(contract) ==> accounts_of(tokens, contract) == tokens[contract],
        !tokens.contains_key(contract) ==> accounts_of(tokens, contract) == Map::<
            Seq<char>,
            u128,
        >::empty() && balance_of(tokens, contract, account) == 0,
        tokens.contains_key(contract) && tokens[contract].contains_key(account) ==> balance_of(
            tokens,
            contract,
            account,
        ) == tokens[contract][account] && balance_in(tokens[contract], account)
            == tokens[contract][account],
        tokens.contains_key(contract) && !tokens[contract].contains_key(account) ==> balance_of(
            tokens,
            contract,
            account,
        ) == 0 && balance_in(tokens[contract], account) == 0,
{
}

/// Adding one amount to an account sets its balance to the sum, and taking it to the difference;
/// each can be done where the result is a balance. More are added and taken in turn.
pub proof fn accounts_change_in_turn(
    accounts: AccountsView,
    account: Seq<char>,
    amount: u128,
    a: AmountsView,
    b: AmountsView,
)
    ensures
        ({
            let before = if accounts.contains_key(account) {
                accounts[account]
            } else {
                0
            };
            let one = seq![(account, amount)];
            &&& credit_accounts(accounts, one) == accounts.insert(
                account,
                (before + amount) as u128,
            )
            &&& credit_accounts_fits(accounts, one) <==> before + amount <= u128::MAX
            &&& debit_accounts(accounts, one) == accounts.insert(
                account,
                (before - amount) as u128,
            )
            &&& debit_accounts_fits(accounts, one) <==> amount <= before
        }),
        credit_accounts(accounts, Seq::empty()) == accounts,
        credit_accounts_fits(accounts, Seq::empty()),
        debit_accounts(accounts, Seq::empty()) == accounts,
        debit_accounts_fits(accounts, Seq::empty()),
        credit_accounts(accounts, a + b) == credit_accounts(credit_accounts(accounts, a), b),
        credit_accounts_fits(accounts, a + b) <==> credit_accounts_fits(accounts, a)
            && credit_accounts_fits(credit_accounts(accounts, a), b),
        debit_accounts(accounts, a + b) == debit_accounts(debit_accounts(accounts, a), b),
        debit_accounts_fits(accounts, a + b) <==> debit_accounts_fits(accounts, a)
            && debit_accounts_fits(debit_accounts(accounts, a), b),
    decreases b.len(),
{
    reveal_with_fuel(credit_accounts, 2);
    reveal_with_fuel(credit_accounts_fits, 2);
    reveal_with_fuel(debit_accounts, 2);
    reveal_with_fuel(debit_accounts_fits, 2);
    assert(seq![(account, amount)].drop_last() =~= Seq::empty());
    if b.len() == 0 {
        assert(a + b =~= a);
    } else {
        accounts_change_in_turn(accounts, account, amount, a, b.drop_last());
        assert((a + b).drop_last() =~= a + b.drop_last());
    }
}

/// Adding to the accounts of one token, or taking from them, changes the accounts of this token,
/// which is listed then, and of no other. More tokens are changed in turn.
pub proof fn tokens_change_in_turn(
    tokens: TokensView,
    contract: Seq<char>,
    amounts: AmountsView,
    a: Seq<(Seq<char>, AmountsView)>,
    b: Seq<(Seq<char>, AmountsView)>,
)
    ensures
        ({
            let before = if tokens.contains_key(contract) {
                tokens[contract]
            } else {
                Map::empty()
            };
            let one = seq![(contract, amounts)];
            &&& credit_tokens(tokens, one) == tokens.insert(
                contract,
                credit_accounts(before, amounts),
            )
            &&& credit_tokens_fits(tokens, one) <==> credit_accounts_fits(before, amounts)
            &&& debit_tokens(tokens, one) == tokens.insert(
                contract,
                debit_accounts(before, amounts),
            )
            &&& debit_tokens_fits(tokens, one) <==> debit_accounts_fits(before, amounts)
        }),
        credit_tokens(tokens, Seq::empty()) == tokens,
        credit_tokens_fits(tokens, Seq::empty()),
        debit_tokens(tokens, Seq::empty()) == tokens,
        debit_tokens_fits(tokens, Seq::empty()),
        credit_tokens(tokens, a + b) == credit_tokens(credit_tokens(tokens, a), b),
        credit_tokens_fits(tokens, a + b) <==> credit_tokens_fits(tokens, a) && credit_tokens_fits(
            credit_tokens(tokens, a),
            b,
        ),
        debit_tokens(tokens, a + b) == debit_tokens(debit_tokens(tokens, a), b),
        debit_tokens_fits(tokens, a + b) <==> debit_tokens_fits(tokens, a) && debit_tokens_fits(
            debit_tokens(tokens, a),
            b,
        ),
    decreases b.len(),
{
    reveal_with_fuel(credit_tokens, 2);
    reveal_with_fuel(credit_tokens_fits, 2);
    reveal_with_fuel(debit_tokens, 2);
    reveal_with_fuel(debit_tokens_fits, 2);
    assert(seq![(contract, amounts)].drop_last() =~= Seq::empty());
    if b.len() == 0 {
        assert(a + b =~= a);
    } else {
        tokens_change_in_turn(tokens, contract, amounts, a, b.drop_last());
        assert((a + b).drop_last() =~= a + b.drop_last());
    }
}

/// One amount that is added to an account of a token or taken from it changes that balance by the
/// amount, lists the token and the account, and changes nothing else; many are moved in turn.
pub proof fn token_changes_are_made_in_turn(
    q: QuerierView,
    contract: Seq<char>,
    account: Seq<char>,
    amount: u128,
    a: Seq<(Seq<char>, AmountsView)>,
    b: Seq<(Seq<char>, AmountsView)>,
)
    ensures
        ({
            let accounts = if q.tokens.contains_key(contract) {
                q.tokens[contract]
            } else {
                Map::empty()
            };
            let before = if accounts.contains_key(account) {
                accounts[account]
            } else {
                0
            };
            let one = seq![(contract, seq![(account, amount)])];
            &&& q.token_credit(one) == QuerierView {
                tokens: q.tokens.insert(
                    contract,
                    accounts.insert(account, (before + amount) as u128),
                ),
                ..q
            }
            &&& q.token_debit(one) == QuerierView {
                tokens: q.tokens.insert(
                    contract,
                    accounts.insert(account, (before - amount) as u128),
                ),
                ..q
            }
        }),
        q.token_credit(Seq::empty()) == q,
        q.token_debit(Seq::empty()) == q,
        q.token_credit(a + b) == q.token_credit(a).token_credit(b),
        q.token_debit(a + b) == q.token_debit(a).token_debit(b),
{
    let accounts = accounts_of(q.tokens, contract);
    accounts_change_in_turn(accounts, account, amount, Seq::empty(), Seq::empty());
    tokens_change_in_turn(q.tokens, contract, seq![(account, amount)], a, b);
}

/// What is moved adds up: over two lists it is what both move, over one token with one account the
/// amount.
pub proof fn movements_add_up(
    a: Seq<(Seq<char>, AmountsView)>,
    b: Seq<(Seq<char>, AmountsView)>,
    token: Seq<char>,
    amounts: AmountsView,
    contract: Seq<char>,
    account: Seq<char>,
)
    ensures
        moved_of(Seq::empty(), contract, account) == 0,
        token == contract ==> moved_of(seq![(token, amounts)], contract, account) == sum_of(
            amounts,
            account,
        ),
        token != contract ==> moved_of(seq![(token, amounts)], contract, account) == 0,
        moved_of(a + b, contract, account) == moved_of(a, contract, account) + moved_of(
            b,
            contract,
            account,
        ),
        moved_amount(Seq::empty(), contract) == 0,
        token == contract ==> moved_amount(seq![(token, amounts)], contract) == sum_amounts(
            amounts,
        ),
        token != contract ==> moved_amount(seq![(token, amounts)], contract) == 0,
        moved_amount(a + b, contract) == moved_amount(a, contract) + moved_amount(b, contract),
    decreases b.len(),
{
    reveal_with_fuel(moved_of, 2);
    reveal_with_fuel(moved_amount, 2);
    assert(seq![(token, amounts)].drop_last() =~= Seq::empty());
    if b.len() == 0 {
        assert(a + b =~= a);
    } else {
        movements_add_up(a, b.drop_last(), token, amounts, contract, account);
        assert((a + b).drop_last() =~= a + b.drop_last());
    }
}

/// All amounts of two lists sum up to those of both, and one amount to itself.
pub proof fn amounts_add_up(a: AmountsView, b: AmountsView, account: Seq<char>, amount: u128)
    ensures
        sum_amounts(Seq::empty()) == 0,
        sum_amounts(seq![(account, amount)]) == amount,
        sum_amounts(a + b) == sum_amounts(a) + sum_amounts(b),
    decreases b.len(),
{
    reveal_with_fuel(sum_amounts, 2);
    assert(seq![(account, amount)].drop_last() =~= Seq::empty());
    if b.len() == 0 {
        assert(a + b =~= a);
    } else {
        amounts_add_up(a, b.drop_last(), account, amount);
        assert((a + b).drop_last() =~= a + b.drop_last());
    }
}

/// A token without accounts has no supply, and one more account raises it by its balance.
pub proof fn supplies_add_up(accounts: AccountsView, account: Seq<char>, balance: u128)
    requires
        accounts.dom().finite(),
        !accounts.contains_key(account),
    ensures
        total(Map::empty()) == 0,
        total(accounts.insert(account, balance)) == total(accounts) + balance,
{
    assert(Map::<Seq<char>, u128>::empty().dom().len() == 0);
    lemma_total_insert(accounts, account, balance);
}

/// A list of tokens with their accounts is read as maps: a token has the accounts of its last
/// entry, and a token without an entry is not listed.
pub proof fn last_list_of_accounts_counts(
    balances: Seq<(Seq<char>, AmountsView)>,
    contract: Seq<char>,
)
    ensures
        forall|i: int|
            0 <= i < balances.len() && (#[trigger] balances[i]).0 == contract && (forall|j: int|
                i < j < balances.len() ==> (#[trigger] balances[j]).0 != contract) ==> token_map(
                balances,
            ).contains_key(contract) && token_map(balances)[contract] == list_map(balances[i].1),
        (forall|j: int| 0 <= j < balances.len() ==> (#[trigger] balances[j]).0 != contract)
            ==> !token_map(balances).contains_key(contract),
{
    let entries = token_accounts(balances);
    assert forall|i: int|
        0 <= i < balances.len() && (#[trigger] balances[i]).0 == contract && (forall|j: int|
            i < j < balances.len() ==> (#[trigger] balances[j]).0 != contract) implies token_map(
        balances,
    ).contains_key(contract) && token_map(balances)[contract] == list_map(balances[i].1) by {
        assert forall|j: int| i < j < entries.len() implies (#[trigger] entries[j]).0
            != entries[i].0 by {
            assert(balances[j].0 != contract);
        }
        last_entry_counts(entries, i);
    }
    if forall|j: int| 0 <= j < balances.len() ==> (#[trigger] balances[j]).0 != contract {
        assert forall|j: int| 0 <= j < entries.len() implies (#[trigger] entries[j]).0
            != contract by {
            assert(balances[j].0 != contract);
        }
        only_entries_are_listed(entries, contract);
    }
}

/// Setting a price changes this price alone.
pub proof fn price_is_set(q: QuerierView, offer: Seq<char>, ask: Seq<char>, price: u64)
    ensures
        q.with_price(offer, ask, price) == (QuerierView {
            prices: q.prices.insert((offer, ask), price),
            ..q
        }),
{
}

/// A querier that was told nothing but native balances holds these and nothing else.
pub proof fn only_native_balances_at_first(
    native: Map<Seq<char>, Seq<CoinView>>,
    name: Seq<char>,
    ask: Seq<char>,
)
    ensures
        QuerierView::with_native(native).native == native,
        QuerierView::with_native(native).tax_rate.atomics == 0,
        !QuerierView::with_native(native).tokens.contains_key(name),
        !QuerierView::with_native(native).tax_caps.contains_key(name),
        !QuerierView::with_native(native).prices.contains_key((name, ask)),
{
}

/// After taxes were set, a query of the treasury for the cap of a denomination is answered with
/// the last entry for this very denomination, which stands at `i`, and with zero where there is
/// none and `i` is negative; a query for the rate is answered with the rate.
pub proof fn taxes_that_were_set_are_answered(
    q: QuerierView,
    step: SwapStep,
    rate: Decimal,
    caps: AmountsView,
    denom: Seq<char>,
    i: int,
    text: Seq<u8>,
    reply: ReplyView,
)
    requires
        i < caps.len(),
        i >= 0 ==> caps[i].0 == denom,
        forall|j: int| i < j < caps.len() && 0 <= j ==> (#[trigger] caps[j]).0 != denom,
    ensures
        ({
            let after = QuerierView { tax_rate: rate, tax_caps: list_map(caps), ..q };
            let cap = if i >= 0 {
                caps[i].1
            } else {
                0
            };
            let cap_reply: ReplyView = Ok(Ok(number_field_json("cap"@, cap)));
            let rate_reply: ReplyView = Ok(Ok(decimal_field_json("rate"@, rate.atomics as nat)));
            let route = TerraRoute::Treasury;
            let cap_query = TerraQueryView::TaxCap { denom };
            let rate_query = TerraQueryView::TaxRate;
            &&& after.treasury_reply(cap_query) == cap_reply
            &&& after.custom_reply(route, cap_query) == cap_reply
            &&& request_of(text) == Some(RequestView::Custom { route, query_data: cap_query })
                ==> (after.raw_replies(step, text, reply) <==> reply == cap_reply)
            &&& after.treasury_reply(rate_query) == rate_reply
            &&& after.custom_reply(route, rate_query) == rate_reply
            &&& request_of(text) == Some(RequestView::Custom { route, query_data: rate_query })
                ==> (after.raw_replies(step, text, reply) <==> reply == rate_reply)
        }),
{
    if i >= 0 {
        last_entry_counts(caps, i);
    } else {
        only_entries_are_listed(caps, denom);
    }
}

proof fn lemma_nothing_moved(amounts: AmountsView, account: Seq<char>)
    requires
        forall|j: int| 0 <= j < amounts.len() ==> (#[trigger] amounts[j]).0 != account,
    ensures
        sum_of(amounts, account) == 0,
    decreases amounts.len(),
{
    if amounts.len() > 0 {
        let rest = amounts.drop_last();
        assert forall|j: int| 0 <= j < rest.len() implies (#[trigger] rest[j]).0 != account by {
            assert(amounts[j].0 != account);
        }
        lemma_nothing_moved(rest, account);
        assert(amounts[amounts.len() - 1].0 != account);
    }
}

proof fn lemma_nothing_moved_of(
    moved: Seq<(Seq<char>, AmountsView)>,
    contract: Seq<char>,
    account: Seq<char>,
)
    requires
        forall|i: int, j: int|
            0 <= i < moved.len() && 0 <= j < moved[i].1.len() && moved[i].0 == contract
                ==> (#[trigger] moved[i].1[j]).0 != account,
    ensures
        moved_of(moved, contract, account) == 0,
    decreases moved.len(),
{
    if moved.len() > 0 {
        let rest = moved.drop_last();
        assert forall|i: int, j: int|
            0 <= i < rest.len() && 0 <= j < rest[i].1.len() && rest[i].0 == contract implies (
        #[trigger] rest[i].1[j]).0 != account by {
            assert(moved[i].1[j].0 != account);
        }
        lemma_nothing_moved_of(rest, contract, account);
        if moved.last().0 == contract {
            let amounts = moved.last().1;
            assert forall|j: int| 0 <= j < amounts.len() implies (#[trigger] amounts[j]).0
                != account by {
                assert(moved[moved.len() - 1].1[j].0 != account);
            }
            lemma_nothing_moved(amounts, account);
        }
    }
}

/// Amounts that are added to or taken from other accounts and other tokens change no answer to a
/// message that asks a listed token for the balance of an address.
pub proof fn movements_of_others_change_no_balance(
    q: QuerierView,
    step: SwapStep,
    moved: Seq<(Seq<char>, AmountsView)>,
    contract: Seq<char>,
    address: Seq<char>,
    msg: Seq<u8>,
    reply: ReplyView,
)
    requires
        q.tokens.contains_key(contract),
        forall|i: int, j: int|
            0 <= i < moved.len() && 0 <= j < moved[i].1.len() && moved[i].0 == contract
                ==> (#[trigger] moved[i].1[j]).0 != address,
        cw20_msg_of(msg) == Some(Cw20MsgView::Balance { address }),
        contract == "terraswap_router"@ ==> router_msg_of(msg) is None,
    ensures
        credit_tokens_fits(q.tokens, moved) ==> (q.token_credit(moved).wasm_smart_replies(
            step,
            contract,
            msg,
            reply,
        ) <==> q.wasm_smart_replies(step, contract, msg, reply)),
        debit_tokens_fits(q.tokens, moved) ==> (q.token_debit(moved).wasm_smart_replies(
            step,
            contract,
            msg,
            reply,
        ) <==> q.wasm_smart_replies(step, contract, msg, reply)),
{
    lemma_nothing_moved_of(moved, contract, address);
    lemma_stays_listed(q.tokens, moved, contract);
    if credit_tokens_fits(q.tokens, moved) {
        credit_adds_to_each_balance(q.tokens, moved, contract, address);
    }
    if debit_tokens_fits(q.tokens, moved) {
        debit_takes_from_each_balance(q.tokens, moved, contract, address);
    }
}

} // verus!
