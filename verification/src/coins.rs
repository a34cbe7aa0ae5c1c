//! Lists of coins: what is held of a denomination, and how coins are added and taken away.
use vstd::prelude::*;

use crate::types::{coins_view, Coin, CoinView};

verus! {

/// The place of the first coin of `denom` in `coins`, or their number if there is none.
pub open spec fn denom_index(coins: Seq<CoinView>, denom: Seq<char>) -> nat
    decreases coins.len(),
{
    if coins.len() == 0 || coins[0].0 == denom {
        0
    } else {
        1 + denom_index(coins.drop_first(), denom)
    }
}

/// Whether `coins` hold a coin of `denom`, be it of amount zero.
pub open spec fn has_denom(coins: Seq<CoinView>, denom: Seq<char>) -> bool {
    denom_index(coins, denom) < coins.len()
}

/// What the first coin of `denom` in `coins` amounts to, zero if there is none.
pub open spec fn amount_of(coins: Seq<CoinView>, denom: Seq<char>) -> u128 {
    if has_denom(coins, denom) {
        coins[denom_index(coins, denom) as int].1
    } else {
        0
    }
}

/// `coins` with the amount of the first coin of `denom` set to `amount`.
pub open spec fn set_amount(coins: Seq<CoinView>, denom: Seq<char>, amount: u128) -> Seq<CoinView> {
    coins.update(denom_index(coins, denom) as int, (denom, amount))
}

/// `coins` after `coin` was added: to the first coin of its denomination, or at the end.
pub open spec fn credit(coins: Seq<CoinView>, coin: CoinView) -> Seq<CoinView> {
    if has_denom(coins, coin.0) {
        set_amount(coins, coin.0, (amount_of(coins, coin.0) + coin.1) as u128)
    } else {
        coins.push(coin)
    }
}

/// Adding `coin` does not exceed the largest amount.
pub open spec fn credit_fits(coins: Seq<CoinView>, coin: CoinView) -> bool {
    amount_of(coins, coin.0) + coin.1 <= u128::MAX
}

/// `coins` after `coin` was taken from the first coin of its denomination.
pub open spec fn debit(coins: Seq<CoinView>, coin: CoinView) -> Seq<CoinView> {
    set_amount(coins, coin.0, (amount_of(coins, coin.0) - coin.1) as u128)
}

/// There is a coin of the denomination of `coin`, and enough of it.
pub open spec fn debit_fits(coins: Seq<CoinView>, coin: CoinView) -> bool {
    has_denom(coins, coin.0) && coin.1 <= amount_of(coins, coin.0)
}

/// `coins` after each of `added` was added in turn.
pub open spec fn credit_all(coins: Seq<CoinView>, added: Seq<CoinView>) -> Seq<CoinView>
    decreases added.len(),
{
    if added.len() == 0 {
        coins
    } else {
        credit(credit_all(coins, added.drop_last()), added.last())
    }
}

/// None of `added` exceeds the largest amount when its turn comes.
pub open spec fn credit_all_fits(coins: Seq<CoinView>, added: Seq<CoinView>) -> bool
    decreases added.len(),
{
    added.len() == 0 || (credit_all_fits(coins, added.drop_last()) && credit_fits(
        credit_all(coins, added.drop_last()),
        added.last(),
    ))
}

/// `coins` after each of `taken` was taken away in turn.
pub open spec fn debit_all(coins: Seq<CoinView>, taken: Seq<CoinView>) -> Seq<CoinView>
    decreases taken.len(),
{
    if taken.len() == 0 {
        coins
    } else {
        debit(debit_all(coins, taken.drop_last()), taken.last())
    }
}

/// For each of `taken` there is enough when its turn comes.
pub open spec fn debit_all_fits(coins: Seq<CoinView>, taken: Seq<CoinView>) -> bool
    decreases taken.len(),
{
    taken.len() == 0 || (debit_all_fits(coins, taken.drop_last()) && debit_fits(
        debit_all(coins, taken.drop_last()),
        taken.last(),
    ))
}

/// `coins` with the tax on each added to it.
pub open spec fn taxed(coins: Seq<CoinView>, taxes: Seq<u128>) -> Seq<CoinView> {
    Seq::new(coins.len(), |i: int| (coins[i].0, (coins[i].1 + taxes[i]) as u128))
}

/// Each coin before the first one of `exempt` has its tax, and with it does not exceed the largest
/// amount.
pub open spec fn taxes_fit(coins: Seq<CoinView>, taxes: Seq<u128>, exempt: Seq<char>) -> bool {
    &&& denom_index(coins, exempt) <= taxes.len()
    &&& forall|i: int|
        0 <= i < denom_index(coins, exempt) ==> (#[trigger] coins[i]).1 + taxes[i] <= u128::MAX
}

/// What `coins` hold of `denom` all together.
pub open spec fn sum_of(coins: Seq<CoinView>, denom: Seq<char>) -> nat
    decreases coins.len(),
{
    if coins.len() == 0 {
        0
    } else {
        sum_of(coins.drop_last(), denom) + (if coins.last().0 == denom {
            coins.last().1 as nat
        } else {
            0
        })
    }
}

/// Where `denom_index` points to: the first coin of the denomination, or the end.
pub proof fn lemma_denom_index(coins: Seq<CoinView>, denom: Seq<char>)
    ensures
        denom_index(coins, denom) <= coins.len(),
        forall|i: int| 0 <= i < denom_index(coins, denom) ==> (#[trigger] coins[i]).0 != denom,
        has_denom(coins, denom) ==> coins[denom_index(coins, denom) as int].0 == denom,
    decreases coins.len(),
{
    if coins.len() > 0 && coins[0].0 != denom {
        let rest = coins.drop_first();
        lemma_denom_index(rest, denom);
        assert forall|i: int| 0 <= i < denom_index(coins, denom) implies (#[trigger] coins[i]).0
            != denom by {
            if i > 0 {
                assert(rest[i - 1] == coins[i]);
            }
        }
    }
}

/// A place before which no coin is of `denom`, and which holds one or is the end, is the place
/// that `denom_index` gives.
pub proof fn lemma_denom_index_is(coins: Seq<CoinView>, denom: Seq<char>, i: int)
    requires
        0 <= i <= coins.len(),
        forall|j: int| 0 <= j < i ==> (#[trigger] coins[j]).0 != denom,
        i < coins.len() ==> coins[i].0 == denom,
    ensures
        denom_index(coins, denom) == i,
{
    lemma_denom_index(coins, denom);
    let k = denom_index(coins, denom) as int;
    if k < i {
        assert(coins[k].0 == denom);
    } else if i < k {
        assert(coins[i].0 != denom);
    }
}

/// Finds the first coin of `denom`.
fn find_denom(coins: &Vec<Coin>, denom: &String) -> (found: usize)
    ensures
        found == denom_index(coins_view(coins@), denom@),
        found <= coins@.len(),
{
    let mut i: usize = 0;
    while i < coins.len()
        invariant
            i <= coins@.len(),
            forall|j: int| 0 <= j < i ==> (#[trigger] coins_view(coins@)[j]).0 != denom@,
        decreases coins@.len() - i,
    {
        if coins[i].denom == *denom {
            proof {
                lemma_denom_index_is(coins_view(coins@), denom@, i as int);
            }
            return i;
        }
        i = i + 1;
    }
    proof {
        lemma_denom_index_is(coins_view(coins@), denom@, i as int);
    }
    i
}

/// How many of `coins`, from the first on, a tax has to be known for: those before the first luna.
pub fn coins_to_tax(coins: &Vec<Coin>) -> (count: usize)
    ensures
        count == denom_index(coins_view(coins@), "uluna"@),
        count <= coins@.len(),
{
    find_denom(coins, &"uluna".to_string())
}

proof fn lemma_credit_all_fits_prefix(coins: Seq<CoinView>, added: Seq<CoinView>, n: int)
    requires
        credit_all_fits(coins, added),
        0 <= n <= added.len(),
    ensures
        credit_all_fits(coins, added.take(n)),
    decreases added.len(),
{
    if n == added.len() {
        assert(added.take(n) =~= added);
    } else {
        lemma_credit_all_fits_prefix(coins, added.drop_last(), n);
        assert(added.drop_last().take(n) =~= added.take(n));
    }
}

proof fn lemma_debit_all_fits_prefix(coins: Seq<CoinView>, taken: Seq<CoinView>, n: int)
    requires
        debit_all_fits(coins, taken),
        0 <= n <= taken.len(),
    ensures
        debit_all_fits(coins, taken.take(n)),
    decreases taken.len(),
{
    if n == taken.len() {
        assert(taken.take(n) =~= taken);
    } else {
        lemma_debit_all_fits_prefix(coins, taken.drop_last(), n);
        assert(taken.drop_last().take(n) =~= taken.take(n));
    }
}

/// Adds each of `added` to `coins` in turn. Where one of them would exceed the largest amount
/// there is no outcome.
pub fn credit_coins(coins: Vec<Coin>, added: &Vec<Coin>) -> (outcome: Option<Vec<Coin>>)
    ensures
        outcome is Some <==> credit_all_fits(coins_view(coins@), coins_view(added@)),
        outcome matches Some(held) ==> coins_view(held@) == credit_all(
            coins_view(coins@),
            coins_view(added@),
        ),
{
    let ghost before = coins_view(coins@);
    let ghost all = coins_view(added@);
    let mut held: Vec<Coin> = coins;
    let mut n: usize = 0;
    while n < added.len()
        invariant
            n <= added@.len(),
            before == coins_view(coins@),
            all == coins_view(added@),
            credit_all_fits(before, all.take(n as int)),
            coins_view(held@) == credit_all(before, all.take(n as int)),
        decreases added@.len() - n,
    {
        let coin = &added[n];
        let i: usize = find_denom(&held, &coin.denom);
        let ghost now = coins_view(held@);
        proof {
            assert(all.take(n + 1).drop_last() =~= all.take(n as int));
            assert(all.take(n + 1).last() == coin@);
        }
        if i < held.len() {
            match held[i].amount.checked_add(coin.amount) {
                Some(amount) => {
                    held.set(i, Coin { denom: coin.denom.clone(), amount });
                    assert(coins_view(held@) =~= credit(now, coin@));
                },
                None => {
                    proof {
                        if credit_all_fits(before, all) {
                            lemma_credit_all_fits_prefix(before, all, n + 1);
                        }
                    }
                    return None;
                },
            }
        } else {
            held.push(Coin { denom: coin.denom.clone(), amount: coin.amount });
            assert(coins_view(held@) =~= credit(now, coin@));
        }
        n = n + 1;
    }
    assert(all.take(n as int) =~= all);
    Some(held)
}

/// Takes each of `taken` from `coins` in turn. Where there is not enough of one of them there is
/// no outcome.
pub fn debit_coins(coins: Vec<Coin>, taken: &Vec<Coin>) -> (outcome: Option<Vec<Coin>>)
    ensures
        outcome is Some <==> debit_all_fits(coins_view(coins@), coins_view(taken@)),
        outcome matches Some(held) ==> coins_view(held@) == debit_all(
            coins_view(coins@),
            coins_view(taken@),
        ),
{
    let ghost before = coins_view(coins@);
    let ghost all = coins_view(taken@);
    let mut held: Vec<Coin> = coins;
    let mut n: usize = 0;
    while n < taken.len()
        invariant
            n <= taken@.len(),
            before == coins_view(coins@),
            all == coins_view(taken@),
            debit_all_fits(before, all.take(n as int)),
            coins_view(held@) == debit_all(before, all.take(n as int)),
        decreases taken@.len() - n,
    {
        let coin = &taken[n];
        let i: usize = find_denom(&held, &coin.denom);
        let ghost now = coins_view(held@);
        proof {
            assert(all.take(n + 1).drop_last() =~= all.take(n as int));
            assert(all.take(n + 1).last() == coin@);
        }
        if i < held.len() && coin.amount <= held[i].amount {
            let amount: u128 = held[i].amount - coin.amount;
            held.set(i, Coin { denom: coin.denom.clone(), amount });
            assert(coins_view(held@) =~= debit(now, coin@));
        } else {
            proof {
                if debit_all_fits(before, all) {
                    lemma_debit_all_fits_prefix(before, all, n + 1);
                }
            }
            return None;
        }
        n = n + 1;
    }
    assert(all.take(n as int) =~= all);
    Some(held)
}

/// Setting the amount of one denomination changes what is held of it, and of no other.
proof fn lemma_set_amount(coins: Seq<CoinView>, denom: Seq<char>, amount: u128, other: Seq<char>)
    requires
        has_denom(coins, denom),
    ensures
        has_denom(set_amount(coins, denom, amount), other) == has_denom(coins, other),
        amount_of(set_amount(coins, denom, amount), other) == (if other == denom {
            amount
        } else {
            amount_of(coins, other)
        }),
{
    let after = set_amount(coins, denom, amount);
    lemma_denom_index(coins, denom);
    lemma_denom_index(coins, other);
    let i = denom_index(coins, other) as int;
    assert forall|j: int| 0 <= j < i implies (#[trigger] after[j]).0 != other by {
        assert(coins[j].0 != other);
    }
    lemma_denom_index_is(after, other, i);
}

/// Adding a coin changes what is held of its denomination by its amount, and of no other.
proof fn lemma_credit(coins: Seq<CoinView>, coin: CoinView, other: Seq<char>)
    requires
        credit_fits(coins, coin),
    ensures
        has_denom(credit(coins, coin), other) == (has_denom(coins, other) || other == coin.0),
        amount_of(credit(coins, coin), other) == amount_of(coins, other) + (if other == coin.0 {
            coin.1 as int
        } else {
            0
        }),
{
    if has_denom(coins, coin.0) {
        lemma_set_amount(coins, coin.0, (amount_of(coins, coin.0) + coin.1) as u128, other);
    } else {
        let after = coins.push(coin);
        lemma_denom_index(coins, coin.0);
        lemma_denom_index(coins, other);
        let i = denom_index(coins, other) as int;
        assert forall|j: int| 0 <= j < i implies (#[trigger] after[j]).0 != other by {
            assert(coins[j].0 != other);
        }
        if i < coins.len() || other == coin.0 {
            lemma_denom_index_is(after, other, i);
        } else {
            assert forall|j: int| 0 <= j < i + 1 implies (#[trigger] after[j]).0 != other by {
                if j < i {
                    assert(coins[j].0 != other);
                }
            }
            lemma_denom_index_is(after, other, i + 1);
        }
    }
}

/// Adding coins changes what is held of each denomination by what was added of it.
pub proof fn credit_adds_to_each_denom(
    coins: Seq<CoinView>,
    added: Seq<CoinView>,
    denom: Seq<char>,
)
    requires
        credit_all_fits(coins, added),
    ensures
        amount_of(credit_all(coins, added), denom) == amount_of(coins, denom) + sum_of(
            added,
            denom,
        ),
    decreases added.len(),
{
    if added.len() > 0 {
        credit_adds_to_each_denom(coins, added.drop_last(), denom);
        lemma_credit(credit_all(coins, added.drop_last()), added.last(), denom);
    }
}

/// Taking coins away changes what is held of each denomination by what was taken of it.
pub proof fn debit_takes_from_each_denom(
    coins: Seq<CoinView>,
    taken: Seq<CoinView>,
    denom: Seq<char>,
)
    requires
        debit_all_fits(coins, taken),
    ensures
        amount_of(debit_all(coins, taken), denom) == amount_of(coins, denom) - sum_of(
            taken,
            denom,
        ),
        has_denom(debit_all(coins, taken), denom) == has_denom(coins, denom),
    decreases taken.len(),
{
    if taken.len() > 0 {
        let prev = debit_all(coins, taken.drop_last());
        debit_takes_from_each_denom(coins, taken.drop_last(), denom);
        lemma_set_amount(
            prev,
            taken.last().0,
            (amount_of(prev, taken.last().0) - taken.last().1) as u128,
            denom,
        );
    }
}

proof fn lemma_credit_all_has(coins: Seq<CoinView>, added: Seq<CoinView>, i: int)
    requires
        credit_all_fits(coins, added),
        0 <= i < added.len(),
    ensures
        has_denom(credit_all(coins, added), added[i].0),
    decreases added.len(),
{
    let prev = credit_all(coins, added.drop_last());
    lemma_credit(prev, added.last(), added[i].0);
    if i < added.len() - 1 {
        lemma_credit_all_has(coins, added.drop_last(), i);
        assert(added.drop_last()[i] == added[i]);
    }
}

proof fn lemma_sum_of_prefix(coins: Seq<CoinView>, n: int, denom: Seq<char>)
    requires
        0 <= n < coins.len(),
    ensures
        sum_of(coins.take(n + 1), denom) == sum_of(coins.take(n), denom) + (if coins[n].0 == denom {
            coins[n].1 as nat
        } else {
            0
        }),
        sum_of(coins.take(n + 1), denom) <= sum_of(coins, denom),
    decreases coins.len(),
{
    assert(coins.take(n + 1).drop_last() =~= coins.take(n));
    if n + 1 == coins.len() {
        assert(coins.take(n + 1) =~= coins);
    } else {
        lemma_sum_of_prefix(coins.drop_last(), n, denom);
        assert(coins.drop_last().take(n + 1) =~= coins.take(n + 1));
    }
}

proof fn lemma_debit_after_credit(coins: Seq<CoinView>, moved: Seq<CoinView>, n: int)
    requires
        credit_all_fits(coins, moved),
        0 <= n <= moved.len(),
    ensures
        debit_all_fits(credit_all(coins, moved), moved.take(n)),
    decreases n,
{
    if n > 0 {
        let held = credit_all(coins, moved);
        let part = moved.take(n);
        let coin = moved[n - 1];
        lemma_debit_after_credit(coins, moved, n - 1);
        assert(part.drop_last() =~= moved.take(n - 1));
        assert(part.last() == coin);
        debit_takes_from_each_denom(held, moved.take(n - 1), coin.0);
        credit_adds_to_each_denom(coins, moved, coin.0);
        lemma_credit_all_has(coins, moved, n - 1);
        lemma_sum_of_prefix(moved, n - 1, coin.0);
    }
}

/// Coins that were just added can be taken away again, and then of each denomination as much is
/// held as before.
pub proof fn debit_undoes_credit(coins: Seq<CoinView>, moved: Seq<CoinView>, denom: Seq<char>)
    requires
        credit_all_fits(coins, moved),
    ensures
        debit_all_fits(credit_all(coins, moved), moved),
        amount_of(debit_all(credit_all(coins, moved), moved), denom) == amount_of(coins, denom),
{
    lemma_debit_after_credit(coins, moved, moved.len() as int);
    assert(moved.take(moved.len() as int) =~= moved);
    debit_takes_from_each_denom(credit_all(coins, moved), moved, denom);
    credit_adds_to_each_denom(coins, moved, denom);
}

} // verus!
