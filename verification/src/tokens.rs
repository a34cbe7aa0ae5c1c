//! Token balances: a map of accounts for each token contract, and how balances are added, taken
//! away and summed up.
use vstd::prelude::*;

use crate::coins::sum_of;
use crate::string_map::{distinct_keys, entries_map, lemma_entries_map, StringMap};
use crate::types::Decimal;

verus! {

/// The balance of each account of one token.
pub type AccountsView = Map<Seq<char>, u128>;

/// The accounts of each token.
pub type TokensView = Map<Seq<char>, AccountsView>;

/// A list of accounts with an amount each.
pub type AmountsView = Seq<(Seq<char>, u128)>;

/// The accounts of each token, taken by their views.
pub open spec fn tokens_view(tokens: Map<Seq<char>, StringMap<u128>>) -> TokensView {
    tokens.map_values(|accounts: StringMap<u128>| accounts@)
}

/// A list of names with an amount each, taken by its view.
pub open spec fn amounts_view(amounts: Seq<(&str, &u128)>) -> AmountsView {
    amounts.map_values(|entry: (&str, &u128)| (entry.0@, *entry.1))
}

/// A list of token contracts with a list of accounts each, taken by its view.
pub open spec fn balances_view(balances: Seq<(&str, &[(&str, &u128)])>) -> Seq<
    (Seq<char>, AmountsView),
> {
    balances.map_values(|entry: (&str, &[(&str, &u128)])| (entry.0@, amounts_view(entry.1@)))
}

/// A list of names with a value each, read as a map: of entries for the same name the last
/// counts.
pub open spec fn list_map<V>(entries: Seq<(Seq<char>, V)>) -> Map<Seq<char>, V>
    decreases entries.len(),
{
    if entries.len() == 0 {
        Map::empty()
    } else {
        list_map(entries.drop_last()).insert(entries.last().0, entries.last().1)
    }
}

/// A list of token contracts with a list of accounts each, the latter read as maps.
pub open spec fn token_accounts(balances: Seq<(Seq<char>, AmountsView)>) -> Seq<
    (Seq<char>, AccountsView),
> {
    balances.map_values(|entry: (Seq<char>, AmountsView)| (entry.0, list_map(entry.1)))
}

/// A list of token contracts with a list of accounts each, read as maps.
pub open spec fn token_map(balances: Seq<(Seq<char>, AmountsView)>) -> TokensView {
    list_map(token_accounts(balances))
}

/// The balance of an account, zero where it is not listed.
pub open spec fn balance_in(accounts: AccountsView, account: Seq<char>) -> u128 {
    if accounts.contains_key(account) {
        accounts[account]
    } else {
        0
    }
}

/// The accounts of a token, none where it is not listed.
pub open spec fn accounts_of(tokens: TokensView, contract: Seq<char>) -> AccountsView {
    if tokens.contains_key(contract) {
        tokens[contract]
    } else {
        Map::empty()
    }
}

/// The balance of an account of a token, zero where either is not listed.
pub open spec fn balance_of(tokens: TokensView, contract: Seq<char>, account: Seq<char>) -> u128 {
    balance_in(accounts_of(tokens, contract), account)
}

/// `accounts` after each of `added` was added to the balance of its account in turn.
pub open spec fn credit_accounts(accounts: AccountsView, added: AmountsView) -> AccountsView
    decreases added.len(),
{
    if added.len() == 0 {
        accounts
    } else {
        let before = credit_accounts(accounts, added.drop_last());
        let (account, amount) = added.last();
        before.insert(account, (balance_in(before, account) + amount) as u128)
    }
}

/// None of `added` exceeds the largest balance when its turn comes.
pub open spec fn credit_accounts_fits(accounts: AccountsView, added: AmountsView) -> bool
    decreases added.len(),
{
    added.len() == 0 || (credit_accounts_fits(accounts, added.drop_last()) && balance_in(
        credit_accounts(accounts, added.drop_last()),
        added.last().0,
    ) + added.last().1 <= u128::MAX)
}

/// `accounts` after each of `taken` was taken from the balance of its account in turn.
pub open spec fn debit_accounts(accounts: AccountsView, taken: AmountsView) -> AccountsView
    decreases taken.len(),
{
    if taken.len() == 0 {
        accounts
    } else {
        let before = debit_accounts(accounts, taken.drop_last());
        let (account, amount) = taken.last();
        before.insert(account, (balance_in(before, account) - amount) as u128)
    }
}

/// For each of `taken` the balance is enough when its turn comes.
pub open spec fn debit_accounts_fits(accounts: AccountsView, taken: AmountsView) -> bool
    decreases taken.len(),
{
    taken.len() == 0 || (debit_accounts_fits(accounts, taken.drop_last()) && taken.last().1
        <= balance_in(debit_accounts(accounts, taken.drop_last()), taken.last().0))
}

/// `tokens` after the accounts of each token in `added` were credited in turn.
pub open spec fn credit_tokens(
    tokens: TokensView,
    added: Seq<(Seq<char>, AmountsView)>,
) -> TokensView
    decreases added.len(),
{
    if added.len() == 0 {
        tokens
    } else {
        let before = credit_tokens(tokens, added.drop_last());
        let (contract, amounts) = added.last();
        before.insert(contract, credit_accounts(accounts_of(before, contract), amounts))
    }
}

/// No balance exceeds the largest one when `added` are credited in turn.
pub open spec fn credit_tokens_fits(
    tokens: TokensView,
    added: Seq<(Seq<char>, AmountsView)>,
) -> bool
    decreases added.len(),
{
    added.len() == 0 || (credit_tokens_fits(tokens, added.drop_last()) && credit_accounts_fits(
        accounts_of(credit_tokens(tokens, added.drop_last()), added.last().0),
        added.last().1,
    ))
}

/// `tokens` after the accounts of each token in `taken` were debited in turn.
pub open spec fn debit_tokens(
    tokens: TokensView,
    taken: Seq<(Seq<char>, AmountsView)>,
) -> TokensView
    decreases taken.len(),
{
    if taken.len() == 0 {
        tokens
    } else {
        let before = debit_tokens(tokens, taken.drop_last());
        let (contract, amounts) = taken.last();
        before.insert(contract, debit_accounts(accounts_of(before, contract), amounts))
    }
}

/// Every balance is enough when `taken` are debited in turn.
pub open spec fn debit_tokens_fits(
    tokens: TokensView,
    taken: Seq<(Seq<char>, AmountsView)>,
) -> bool
    decreases taken.len(),
{
    taken.len() == 0 || (debit_tokens_fits(tokens, taken.drop_last()) && debit_accounts_fits(
        accounts_of(debit_tokens(tokens, taken.drop_last()), taken.last().0),
        taken.last().1,
    ))
}

/// The sum of all balances of a token.
pub open spec fn total(accounts: AccountsView) -> nat
    decreases accounts.dom().len(),
    when accounts.dom().finite()
{
    if accounts.dom().len() == 0 {
        0
    } else {
        let account = accounts.dom().choose();
        accounts[account] as nat + total(accounts.remove(account))
    }
}

/// What `moved` holds for `account` of the token `contract` all together.
pub open spec fn moved_of(
    moved: Seq<(Seq<char>, AmountsView)>,
    contract: Seq<char>,
    account: Seq<char>,
) -> nat
    decreases moved.len(),
{
    if moved.len() == 0 {
        0
    } else {
        moved_of(moved.drop_last(), contract, account) + (if moved.last().0 == contract {
            sum_of(moved.last().1, account)
        } else {
            0
        })
    }
}

/// The sum of all amounts in a list.
pub open spec fn sum_amounts(amounts: AmountsView) -> nat
    decreases amounts.len(),
{
    if amounts.len() == 0 {
        0
    } else {
        sum_amounts(amounts.drop_last()) + amounts.last().1 as nat
    }
}

/// Any account can be split off from the sum of all balances.
pub proof fn lemma_total_remove(accounts: AccountsView, account: Seq<char>)
    requires
        accounts.dom().finite(),
        accounts.contains_key(account),
    ensures
        total(accounts) == accounts[account] + total(accounts.remove(account)),
    decreases accounts.dom().len(),
{
    let first = accounts.dom().choose();
    assert(accounts.dom().contains(account));
    assert(accounts.dom().contains(first));
    if first != account {
        let rest = accounts.remove(first);
        lemma_total_remove(rest, account);
        assert(accounts.remove(account).contains_key(first));
        lemma_total_remove(accounts.remove(account), first);
        assert(rest.remove(account) =~= accounts.remove(account).remove(first));
    }
}

/// Setting a balance changes the sum by the difference.
pub proof fn lemma_total_insert(accounts: AccountsView, account: Seq<char>, balance: u128)
    requires
        accounts.dom().finite(),
    ensures
        total(accounts.insert(account, balance)) == total(accounts) - balance_in(accounts, account)
            + balance,
{
    let after = accounts.insert(account, balance);
    lemma_total_remove(after, account);
    if accounts.contains_key(account) {
        lemma_total_remove(accounts, account);
        assert(after.remove(account) =~= accounts.remove(account));
    } else {
        assert(after.remove(account) =~= accounts);
    }
}

/// The sum of the values of a list of entries.
spec fn entries_total(entries: Seq<(String, u128)>) -> nat
    decreases entries.len(),
{
    if entries.len() == 0 {
        0
    } else {
        entries[0].1 as nat + entries_total(entries.drop_first())
    }
}

proof fn lemma_entries_total(entries: Seq<(String, u128)>)
    requires
        distinct_keys(entries),
    ensures
        total(entries_map(entries)) == entries_total(entries),
    decreases entries.len(),
{
    if entries.len() == 0 {
        assert(entries_map(entries).dom() =~= Set::<Seq<char>>::empty());
    } else {
        let rest = entries.drop_first();
        assert(distinct_keys(rest)) by {
            assert forall|i: int, j: int| 0 <= i < j < rest.len() implies #[trigger] rest[i].0@
                != #[trigger] rest[j].0@ by {
                assert(entries[i + 1].0@ != entries[j + 1].0@);
            }
        }
        lemma_entries_total(rest);
        lemma_entries_map(rest);
        if entries_map(rest).contains_key(entries[0].0@) {
            let i = choose|i: int| 0 <= i < rest.len() && (#[trigger] rest[i]).0@ == entries[0].0@;
            assert(entries[0].0@ != entries[i + 1].0@);
        }
        lemma_total_insert(entries_map(rest), entries[0].0@, entries[0].1);
    }
}

/// Sums up all balances. Where the sum exceeds the largest balance there is no outcome.
pub fn total_supply(accounts: &StringMap<u128>) -> (outcome: Option<u128>)
    ensures
        outcome is Some <==> total(accounts@) <= u128::MAX,
        outcome matches Some(sum) ==> sum == total(accounts@),
{
    let entries = accounts.entries();
    proof {
        lemma_entries_total(entries@);
        assert(entries@.skip(0) =~= entries@);
    }
    let mut sum: u128 = 0;
    let mut i: usize = 0;
    while i < entries.len()
        invariant
            i <= entries@.len(),
            total(accounts@) == entries_total(entries@),
            sum + entries_total(entries@.skip(i as int)) == entries_total(entries@),
        decreases entries@.len() - i,
    {
        proof {
            assert(entries@.skip(i as int).drop_first() =~= entries@.skip(i + 1));
            assert(entries@.skip(i as int)[0] == entries@[i as int]);
        }
        match sum.checked_add(entries[i].1) {
            Some(next) => {
                sum = next;
            },
            None => {
                return None;
            },
        }
        i = i + 1;
    }
    Some(sum)
}

/// The map that a list of amounts makes up.
pub fn caps_to_map(caps: &[(&str, &u128)]) -> (map: StringMap<u128>)
    ensures
        map@ == list_map(amounts_view(caps@)),
{
    let ghost all = amounts_view(caps@);
    let mut map: StringMap<u128> = StringMap::new();
    let mut n: usize = 0;
    while n < caps.len()
        invariant
            n <= caps@.len(),
            all == amounts_view(caps@),
            map@ == list_map(all.take(n as int)),
        decreases caps@.len() - n,
    {
        proof {
            assert(all.take(n + 1).drop_last() =~= all.take(n as int));
        }
        map.insert(caps[n].0.to_string(), *caps[n].1);
        n = n + 1;
    }
    assert(all.take(n as int) =~= all);
    map
}

/// A list of names with a decimal each, taken by its view.
pub open spec fn powers_view(powers: Seq<(&String, &Decimal)>) -> Seq<(Seq<char>, Decimal)> {
    powers.map_values(|entry: (&String, &Decimal)| (entry.0@, *entry.1))
}

/// The map that a list of decimals makes up.
pub fn powers_to_map(powers: &[(&String, &Decimal)]) -> (map: StringMap<Decimal>)
    ensures
        map@ == list_map(powers_view(powers@)),
{
    let ghost all = powers_view(powers@);
    let mut map: StringMap<Decimal> = StringMap::new();
    let mut n: usize = 0;
    while n < powers.len()
        invariant
            n <= powers@.len(),
            all == powers_view(powers@),
            map@ == list_map(all.take(n as int)),
        decreases powers@.len() - n,
    {
        proof {
            assert(all.take(n + 1).drop_last() =~= all.take(n as int));
        }
        map.insert(powers[n].0.clone(), *powers[n].1);
        n = n + 1;
    }
    assert(all.take(n as int) =~= all);
    map
}

/// The accounts of each token that a list of balances makes up.
pub fn balances_to_map(balances: &[(&str, &[(&str, &u128)])]) -> (map: StringMap<StringMap<u128>>)
    ensures
        tokens_view(map@) == token_map(balances_view(balances@)),
{
    let ghost all = token_accounts(balances_view(balances@));
    let mut map: StringMap<StringMap<u128>> = StringMap::new();
    assert(tokens_view(map@) =~= list_map(all.take(0)));
    let mut n: usize = 0;
    while n < balances.len()
        invariant
            n <= balances@.len(),
            all == token_accounts(balances_view(balances@)),
            tokens_view(map@) == list_map(all.take(n as int)),
        decreases balances@.len() - n,
    {
        proof {
            assert(all.take(n + 1).drop_last() =~= all.take(n as int));
        }
        let ghost before = map@;
        let accounts = caps_to_map(balances[n].1);
        map.insert(balances[n].0.to_string(), accounts);
        assert(tokens_view(map@) =~= tokens_view(before).insert(all[n as int].0, accounts@));
        n = n + 1;
    }
    assert(all.take(n as int) =~= all);
    map
}

proof fn lemma_credit_accounts_fits_prefix(accounts: AccountsView, added: AmountsView, n: int)
    requires
        credit_accounts_fits(accounts, added),
        0 <= n <= added.len(),
    ensures
        credit_accounts_fits(accounts, added.take(n)),
    decreases added.len(),
{
    if n == added.len() {
        assert(added.take(n) =~= added);
    } else {
        lemma_credit_accounts_fits_prefix(accounts, added.drop_last(), n);
        assert(added.drop_last().take(n) =~= added.take(n));
    }
}

proof fn lemma_debit_accounts_fits_prefix(accounts: AccountsView, taken: AmountsView, n: int)
    requires
        debit_accounts_fits(accounts, taken),
        0 <= n <= taken.len(),
    ensures
        debit_accounts_fits(accounts, taken.take(n)),
    decreases taken.len(),
{
    if n == taken.len() {
        assert(taken.take(n) =~= taken);
    } else {
        lemma_debit_accounts_fits_prefix(accounts, taken.drop_last(), n);
        assert(taken.drop_last().take(n) =~= taken.take(n));
    }
}

proof fn lemma_credit_tokens_fits_prefix(
    tokens: TokensView,
    added: Seq<(Seq<char>, AmountsView)>,
    n: int,
)
    requires
        credit_tokens_fits(tokens, added),
        0 <= n <= added.len(),
    ensures
        credit_tokens_fits(tokens, added.take(n)),
    decreases added.len(),
{
    if n == added.len() {
        assert(added.take(n) =~= added);
    } else {
        lemma_credit_tokens_fits_prefix(tokens, added.drop_last(), n);
        assert(added.drop_last().take(n) =~= added.take(n));
    }
}

proof fn lemma_debit_tokens_fits_prefix(
    tokens: TokensView,
    taken: Seq<(Seq<char>, AmountsView)>,
    n: int,
)
    requires
        debit_tokens_fits(tokens, taken),
        0 <= n <= taken.len(),
    ensures
        debit_tokens_fits(tokens, taken.take(n)),
    decreases taken.len(),
{
    if n == taken.len() {
        assert(taken.take(n) =~= taken);
    } else {
        lemma_debit_tokens_fits_prefix(tokens, taken.drop_last(), n);
        assert(taken.drop_last().take(n) =~= taken.take(n));
    }
}

/// The balance of `account`, zero where it is not listed.
fn balance_or_zero(accounts: &StringMap<u128>, account: &String) -> (balance: u128)
    ensures
        balance == balance_in(accounts@, account@),
{
    match accounts.get(account) {
        Some(balance) => *balance,
        None => 0,
    }
}

/// Adds each of `added` to the balance of its account in turn. Where a balance would exceed the
/// largest one there is no outcome.
fn credited_accounts(accounts: StringMap<u128>, added: &[(&str, &u128)]) -> (outcome: Option<
    StringMap<u128>,
>)
    ensures
        outcome is Some <==> credit_accounts_fits(accounts@, amounts_view(added@)),
        outcome matches Some(after) ==> after@ == credit_accounts(
            accounts@,
            amounts_view(added@),
        ),
{
    let ghost before = accounts@;
    let ghost all = amounts_view(added@);
    let mut after: StringMap<u128> = accounts;
    let mut n: usize = 0;
    while n < added.len()
        invariant
            n <= added@.len(),
            before == accounts@,
            all == amounts_view(added@),
            credit_accounts_fits(before, all.take(n as int)),
            after@ == credit_accounts(before, all.take(n as int)),
        decreases added@.len() - n,
    {
        let account = added[n].0.to_string();
        proof {
            assert(all.take(n + 1).drop_last() =~= all.take(n as int));
            assert(all.take(n + 1).last() == (account@, *added@[n as int].1));
        }
        match balance_or_zero(&after, &account).checked_add(*added[n].1) {
            Some(balance) => {
                after.insert(account, balance);
            },
            None => {
                proof {
                    if credit_accounts_fits(before, all) {
                        lemma_credit_accounts_fits_prefix(before, all, n + 1);
                    }
                }
                return None;
            },
        }
        n = n + 1;
    }
    assert(all.take(n as int) =~= all);
    Some(after)
}

/// Takes each of `taken` from the balance of its account in turn. Where a balance is not enough
/// there is no outcome.
fn debited_accounts(accounts: StringMap<u128>, taken: &[(&str, &u128)]) -> (outcome: Option<
    StringMap<u128>,
>)
    ensures
        outcome is Some <==> debit_accounts_fits(accounts@, amounts_view(taken@)),
        outcome matches Some(after) ==> after@ == debit_accounts(accounts@, amounts_view(taken@)),
{
    let ghost before = accounts@;
    let ghost all = amounts_view(taken@);
    let mut after: StringMap<u128> = accounts;
    let mut n: usize = 0;
    while n < taken.len()
        invariant
            n <= taken@.len(),
            before == accounts@,
            all == amounts_view(taken@),
            debit_accounts_fits(before, all.take(n as int)),
            after@ == debit_accounts(before, all.take(n as int)),
        decreases taken@.len() - n,
    {
        let account = taken[n].0.to_string();
        proof {
            assert(all.take(n + 1).drop_last() =~= all.take(n as int));
            assert(all.take(n + 1).last() == (account@, *taken@[n as int].1));
        }
        match balance_or_zero(&after, &account).checked_sub(*taken[n].1) {
            Some(balance) => {
                after.insert(account, balance);
            },
            None => {
                proof {
                    if debit_accounts_fits(before, all) {
                        lemma_debit_accounts_fits_prefix(before, all, n + 1);
                    }
                }
                return None;
            },
        }
        n = n + 1;
    }
    assert(all.take(n as int) =~= all);
    Some(after)
}

/// A copy of the accounts of each token.
fn copy_tokens(tokens: &StringMap<StringMap<u128>>) -> (copy: StringMap<StringMap<u128>>)
    ensures
        tokens_view(copy@) == tokens_view(tokens@),
{
    let copy = tokens.clone();
    proof {
        assert forall|k: Seq<char>| #[trigger] tokens@.contains_key(k) implies copy@[k]@
            == tokens@[k]@ by {
            assert(cloned::<StringMap<u128>>(tokens@[k], copy@[k]));
            assert(copy@[k]@ =~= tokens@[k]@);
        }
        assert(tokens_view(copy@) =~= tokens_view(tokens@));
    }
    copy
}

/// Credits the accounts of each token in `added` in turn; a token that is not listed is listed
/// then. Where a balance would exceed the largest one there is no outcome.
pub fn credited_tokens(
    tokens: &StringMap<StringMap<u128>>,
    added: &[(&str, &[(&str, &u128)])],
) -> (outcome: Option<StringMap<StringMap<u128>>>)
    ensures
        outcome is Some <==> credit_tokens_fits(tokens_view(tokens@), balances_view(added@)),
        outcome matches Some(after) ==> tokens_view(after@) == credit_tokens(
            tokens_view(tokens@),
            balances_view(added@),
        ),
{
    let ghost before = tokens_view(tokens@);
    let ghost all = balances_view(added@);
    let mut after: StringMap<StringMap<u128>> = copy_tokens(tokens);
    let mut n: usize = 0;
    while n < added.len()
        invariant
            n <= added@.len(),
            before == tokens_view(tokens@),
            all == balances_view(added@),
            credit_tokens_fits(before, all.take(n as int)),
            tokens_view(after@) == credit_tokens(before, all.take(n as int)),
        decreases added@.len() - n,
    {
        let contract = added[n].0.to_string();
        let ghost now = after@;
        proof {
            assert(all.take(n + 1).drop_last() =~= all.take(n as int));
            assert(all.take(n + 1).last() == (contract@, amounts_view(added@[n as int].1@)));
        }
        let accounts = match after.remove(&contract) {
            Some(accounts) => accounts,
            None => StringMap::new(),
        };
        assert(accounts@ == accounts_of(tokens_view(now), contract@));
        match credited_accounts(accounts, added[n].1) {
            Some(accounts) => {
                after.insert(contract, accounts);
                assert(tokens_view(after@) =~= tokens_view(now).insert(contract@, accounts@));
            },
            None => {
                proof {
                    if credit_tokens_fits(before, all) {
                        lemma_credit_tokens_fits_prefix(before, all, n + 1);
                    }
                }
                return None;
            },
        }
        n = n + 1;
    }
    assert(all.take(n as int) =~= all);
    Some(after)
}

/// Debits the accounts of each token in `taken` in turn; a token that is not listed is listed
/// then. Where a balance is not enough there is no outcome.
pub fn debited_tokens(
    tokens: &StringMap<StringMap<u128>>,
    taken: &[(&str, &[(&str, &u128)])],
) -> (outcome: Option<StringMap<StringMap<u128>>>)
    ensures
        outcome is Some <==> debit_tokens_fits(tokens_view(tokens@), balances_view(taken@)),
        outcome matches Some(after) ==> tokens_view(after@) == debit_tokens(
            tokens_view(tokens@),
            balances_view(taken@),
        ),
{
    let ghost before = tokens_view(tokens@);
    let ghost all = balances_view(taken@);
    let mut after: StringMap<StringMap<u128>> = copy_tokens(tokens);
    let mut n: usize = 0;
    while n < taken.len()
        invariant
            n <= taken@.len(),
            before == tokens_view(tokens@),
            all == balances_view(taken@),
            debit_tokens_fits(before, all.take(n as int)),
            tokens_view(after@) == debit_tokens(before, all.take(n as int)),
        decreases taken@.len() - n,
    {
        let contract = taken[n].0.to_string();
        let ghost now = after@;
        proof {
            assert(all.take(n + 1).drop_last() =~= all.take(n as int));
            assert(all.take(n + 1).last() == (contract@, amounts_view(taken@[n as int].1@)));
        }
        let accounts = match after.remove(&contract) {
            Some(accounts) => accounts,
            None => StringMap::new(),
        };
        assert(accounts@ == accounts_of(tokens_view(now), contract@));
        match debited_accounts(accounts, taken[n].1) {
            Some(accounts) => {
                after.insert(contract, accounts);
                assert(tokens_view(after@) =~= tokens_view(now).insert(contract@, accounts@));
            },
            None => {
                proof {
                    if debit_tokens_fits(before, all) {
                        lemma_debit_tokens_fits_prefix(before, all, n + 1);
                    }
                }
                return None;
            },
        }
        n = n + 1;
    }
    assert(all.take(n as int) =~= all);
    Some(after)
}

/// Of entries for the same name the last one counts.
pub proof fn last_entry_counts<V>(entries: Seq<(Seq<char>, V)>, i: int)
    requires
        0 <= i < entries.len(),
        forall|j: int| i < j < entries.len() ==> (#[trigger] entries[j]).0 != entries[i].0,
    ensures
        list_map(entries).contains_key(entries[i].0),
        list_map(entries)[entries[i].0] == entries[i].1,
    decreases entries.len(),
{
    if i < entries.len() - 1 {
        let rest = entries.drop_last();
        assert forall|j: int| i < j < rest.len() implies (#[trigger] rest[j]).0 != rest[i].0 by {
            assert(entries[j].0 != entries[i].0);
        }
        last_entry_counts(rest, i);
        assert(entries[entries.len() - 1].0 != entries[i].0);
    }
}

/// A name that no entry is for is not in the map.
pub proof fn only_entries_are_listed<V>(entries: Seq<(Seq<char>, V)>, name: Seq<char>)
    requires
        forall|j: int| 0 <= j < entries.len() ==> (#[trigger] entries[j]).0 != name,
    ensures
        !list_map(entries).contains_key(name),
    decreases entries.len(),
{
    if entries.len() > 0 {
        let rest = entries.drop_last();
        assert forall|j: int| 0 <= j < rest.len() implies (#[trigger] rest[j]).0 != name by {
            assert(entries[j].0 != name);
        }
        only_entries_are_listed(rest, name);
        assert(entries[entries.len() - 1].0 != name);
    }
}

proof fn lemma_credit_account(accounts: AccountsView, added: AmountsView, account: Seq<char>)
    requires
        credit_accounts_fits(accounts, added),
    ensures
        balance_in(credit_accounts(accounts, added), account) == balance_in(accounts, account)
            + sum_of(added, account),
    decreases added.len(),
{
    if added.len() > 0 {
        lemma_credit_account(accounts, added.drop_last(), account);
    }
}

proof fn lemma_debit_account(accounts: AccountsView, taken: AmountsView, account: Seq<char>)
    requires
        debit_accounts_fits(accounts, taken),
    ensures
        balance_in(debit_accounts(accounts, taken), account) == balance_in(accounts, account)
            - sum_of(taken, account),
    decreases taken.len(),
{
    if taken.len() > 0 {
        lemma_debit_account(accounts, taken.drop_last(), account);
    }
}

/// Crediting changes the balance of each account of each token by what was added to it, and no
/// other balance.
pub proof fn credit_adds_to_each_balance(
    tokens: TokensView,
    added: Seq<(Seq<char>, AmountsView)>,
    contract: Seq<char>,
    account: Seq<char>,
)
    requires
        credit_tokens_fits(tokens, added),
    ensures
        balance_of(credit_tokens(tokens, added), contract, account) == balance_of(
            tokens,
            contract,
            account,
        ) + moved_of(added, contract, account),
    decreases added.len(),
{
    if added.len() > 0 {
        credit_adds_to_each_balance(tokens, added.drop_last(), contract, account);
        if added.last().0 == contract {
            let before = credit_tokens(tokens, added.drop_last());
            lemma_credit_account(accounts_of(before, contract), added.last().1, account);
        }
    }
}

/// Debiting changes the balance of each account of each token by what was taken from it, and no
/// other balance.
pub proof fn debit_takes_from_each_balance(
    tokens: TokensView,
    taken: Seq<(Seq<char>, AmountsView)>,
    contract: Seq<char>,
    account: Seq<char>,
)
    requires
        debit_tokens_fits(tokens, taken),
    ensures
        balance_of(debit_tokens(tokens, taken), contract, account) == balance_of(
            tokens,
            contract,
            account,
        ) - moved_of(taken, contract, account),
    decreases taken.len(),
{
    if taken.len() > 0 {
        debit_takes_from_each_balance(tokens, taken.drop_last(), contract, account);
        if taken.last().0 == contract {
            let before = debit_tokens(tokens, taken.drop_last());
            lemma_debit_account(accounts_of(before, contract), taken.last().1, account);
        }
    }
}

/// Accounts that hold as much as is taken from each all together can be debited.
proof fn lemma_debit_accounts_fits(accounts: AccountsView, taken: AmountsView)
    requires
        forall|account: Seq<char>| #[trigger]
            sum_of(taken, account) <= balance_in(accounts, account),
    ensures
        debit_accounts_fits(accounts, taken),
    decreases taken.len(),
{
    if taken.len() > 0 {
        let rest = taken.drop_last();
        assert forall|account: Seq<char>| #[trigger]
            sum_of(rest, account) <= balance_in(accounts, account) by {
            assert(sum_of(taken, account) <= balance_in(accounts, account));
        }
        lemma_debit_accounts_fits(accounts, rest);
        lemma_debit_account(accounts, rest, taken.last().0);
        assert(sum_of(taken, taken.last().0) <= balance_in(accounts, taken.last().0));
    }
}

proof fn lemma_moved_of_prefix(
    moved: Seq<(Seq<char>, AmountsView)>,
    n: int,
    contract: Seq<char>,
    account: Seq<char>,
)
    requires
        0 <= n <= moved.len(),
    ensures
        moved_of(moved.take(n), contract, account) <= moved_of(moved, contract, account),
    decreases moved.len(),
{
    if n == moved.len() {
        assert(moved.take(n) =~= moved);
    } else {
        lemma_moved_of_prefix(moved.drop_last(), n, contract, account);
        assert(moved.drop_last().take(n) =~= moved.take(n));
    }
}

proof fn lemma_debit_after_credit(
    tokens: TokensView,
    moved: Seq<(Seq<char>, AmountsView)>,
    n: int,
)
    requires
        credit_tokens_fits(tokens, moved),
        0 <= n <= moved.len(),
    ensures
        debit_tokens_fits(credit_tokens(tokens, moved), moved.take(n)),
    decreases n,
{
    if n > 0 {
        let held = credit_tokens(tokens, moved);
        let part = moved.take(n);
        let (contract, amounts) = moved[n - 1];
        lemma_debit_after_credit(tokens, moved, n - 1);
        assert(part.drop_last() =~= moved.take(n - 1));
        assert(part.last() == moved[n - 1]);
        let before = debit_tokens(held, moved.take(n - 1));
        assert forall|account: Seq<char>| #[trigger]
            sum_of(amounts, account) <= balance_in(accounts_of(before, contract), account) by {
            debit_takes_from_each_balance(held, moved.take(n - 1), contract, account);
            credit_adds_to_each_balance(tokens, moved, contract, account);
            lemma_moved_of_prefix(moved, n, contract, account);
        }
        lemma_debit_accounts_fits(accounts_of(before, contract), amounts);
    }
}

/// Balances that were just credited can be debited again, and then each balance is what it was
/// before.
pub proof fn debit_undoes_credit(
    tokens: TokensView,
    moved: Seq<(Seq<char>, AmountsView)>,
    contract: Seq<char>,
    account: Seq<char>,
)
    requires
        credit_tokens_fits(tokens, moved),
    ensures
        debit_tokens_fits(credit_tokens(tokens, moved), moved),
        balance_of(debit_tokens(credit_tokens(tokens, moved), moved), contract, account)
            == balance_of(tokens, contract, account),
{
    lemma_debit_after_credit(tokens, moved, moved.len() as int);
    assert(moved.take(moved.len() as int) =~= moved);
    debit_takes_from_each_balance(credit_tokens(tokens, moved), moved, contract, account);
    credit_adds_to_each_balance(tokens, moved, contract, account);
}

/// What `moved` holds for the token `contract` all together.
pub open spec fn moved_amount(moved: Seq<(Seq<char>, AmountsView)>, contract: Seq<char>) -> nat
    decreases moved.len(),
{
    if moved.len() == 0 {
        0
    } else {
        moved_amount(moved.drop_last(), contract) + (if moved.last().0 == contract {
            sum_amounts(moved.last().1)
        } else {
            0
        })
    }
}

proof fn lemma_total_credit(accounts: AccountsView, added: AmountsView)
    requires
        accounts.dom().finite(),
        credit_accounts_fits(accounts, added),
    ensures
        credit_accounts(accounts, added).dom().finite(),
        total(credit_accounts(accounts, added)) == total(accounts) + sum_amounts(added),
    decreases added.len(),
{
    if added.len() > 0 {
        lemma_total_credit(accounts, added.drop_last());
        let before = credit_accounts(accounts, added.drop_last());
        let (account, amount) = added.last();
        lemma_total_insert(before, account, (balance_in(before, account) + amount) as u128);
    }
}

proof fn lemma_total_debit(accounts: AccountsView, taken: AmountsView)
    requires
        accounts.dom().finite(),
        debit_accounts_fits(accounts, taken),
    ensures
        debit_accounts(accounts, taken).dom().finite(),
        total(debit_accounts(accounts, taken)) == total(accounts) - sum_amounts(taken),
    decreases taken.len(),
{
    if taken.len() > 0 {
        lemma_total_debit(accounts, taken.drop_last());
        let before = debit_accounts(accounts, taken.drop_last());
        let (account, amount) = taken.last();
        lemma_total_insert(before, account, (balance_in(before, account) - amount) as u128);
    }
}

/// Crediting raises the supply of each token by what was added to its accounts.
pub proof fn credit_raises_supply(
    tokens: TokensView,
    added: Seq<(Seq<char>, AmountsView)>,
    contract: Seq<char>,
)
    requires
        accounts_of(tokens, contract).dom().finite(),
        credit_tokens_fits(tokens, added),
    ensures
        accounts_of(credit_tokens(tokens, added), contract).dom().finite(),
        total(accounts_of(credit_tokens(tokens, added), contract)) == total(
            accounts_of(tokens, contract),
        ) + moved_amount(added, contract),
    decreases added.len(),
{
    if added.len() > 0 {
        credit_raises_supply(tokens, added.drop_last(), contract);
        if added.last().0 == contract {
            let before = credit_tokens(tokens, added.drop_last());
            lemma_total_credit(accounts_of(before, contract), added.last().1);
        }
    }
}

/// Debiting lowers the supply of each token by what was taken from its accounts.
pub proof fn debit_lowers_supply(
    tokens: TokensView,
    taken: Seq<(Seq<char>, AmountsView)>,
    contract: Seq<char>,
)
    requires
        accounts_of(tokens, contract).dom().finite(),
        debit_tokens_fits(tokens, taken),
    ensures
        accounts_of(debit_tokens(tokens, taken), contract).dom().finite(),
        total(accounts_of(debit_tokens(tokens, taken), contract)) == total(
            accounts_of(tokens, contract),
        ) - moved_amount(taken, contract),
    decreases taken.len(),
{
    if taken.len() > 0 {
        debit_lowers_supply(tokens, taken.drop_last(), contract);
        if taken.last().0 == contract {
            let before = debit_tokens(tokens, taken.drop_last());
            lemma_total_debit(accounts_of(before, contract), taken.last().1);
        }
    }
}

} // verus!
