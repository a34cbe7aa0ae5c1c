//! The querier of native balances that everything else is built on.
use cosmwasm_std::testing::MockQuerier as StdMockQuerier;
use cosmwasm_std::{from_binary, Addr, AllBalanceResponse, BankQuery as StdBankQuery, Binary};
use cosmwasm_std::{Coin as StdCoin, QueryRequest as StdQueryRequest};
use terra_cosmwasm::TerraQueryWrapper;
use vstd::prelude::*;

use crate::coins::amount_of;
use crate::json::{all_balances_json, bank_balance_json};
use crate::types::{coins_view, BankQuery, BankQueryView, Coin, CoinView};

verus! {

/// The querier of native balances: a `cosmwasm_std::testing::MockQuerier`.
#[verifier::external_body]
pub struct MockQuerier {
    inner: StdMockQuerier<TerraQueryWrapper>,
}

/// The coins that `base` holds for each address.
pub uninterp spec fn native_balances(base: MockQuerier) -> Map<Seq<char>, Seq<CoinView>>;

/// The coins that the JSON text of a reply lists, if it is the text of such a reply.
pub uninterp spec fn coins_of(text: Seq<u8>) -> Option<Seq<CoinView>>;

/// The coins that `balances` hold for `address`, none where it is not listed.
pub open spec fn coins_held(
    balances: Map<Seq<char>, Seq<CoinView>>,
    address: Seq<char>,
) -> Seq<CoinView> {
    if balances.contains_key(address) {
        balances[address]
    } else {
        Seq::empty()
    }
}

/// A list of addresses with their coins, taken by its view.
pub open spec fn holdings_view(holdings: Seq<(&str, &[Coin])>) -> Seq<
    (Seq<char>, Seq<CoinView>),
> {
    holdings.map_values(|entry: (&str, &[Coin])| (entry.0@, coins_view(entry.1@)))
}

/// `balances` after the coins of each address in `holdings` were set in turn.
pub open spec fn set_holdings(
    balances: Map<Seq<char>, Seq<CoinView>>,
    holdings: Seq<(Seq<char>, Seq<CoinView>)>,
) -> Map<Seq<char>, Seq<CoinView>>
    decreases holdings.len(),
{
    if holdings.len() == 0 {
        balances
    } else {
        set_holdings(balances, holdings.drop_last()).insert(holdings.last().0, holdings.last().1)
    }
}

/// The view of the coins that were read of a reply.
pub open spec fn read_coins_view(coins: Option<Vec<Coin>>) -> Option<Seq<CoinView>> {
    match coins {
        Some(coins) => Some(coins_view(coins@)),
        None => None,
    }
}

impl MockQuerier {
    /// Makes a querier with `cosmwasm_std::testing::MockQuerier::new`. It holds the coins of the
    /// addresses listed; of entries for the same address the last counts.
    #[verifier::external_body]
    fn from_holdings(balances: &[(&str, &[Coin])]) -> (base: Self)
        ensures
            native_balances(base) == set_holdings(
                Map::<Seq<char>, Seq<CoinView>>::empty(),
                holdings_view(balances@),
            ),
    {
        let coin = |c: &Coin| StdCoin::new(c.amount, c.denom.as_str());
        let lists = balances.iter().map(|b| b.1.iter().map(coin).collect());
        let lists: Vec<Vec<StdCoin>> = lists.collect();
        let pairs = balances.iter().zip(&lists).map(|(b, l)| (b.0, l.as_slice()));
        let pairs: Vec<(&str, &[StdCoin])> = pairs.collect();
        MockQuerier { inner: StdMockQuerier::new(&pairs) }
    }

    /// A querier that holds the coins of the addresses listed.
    pub fn new(balances: &[(&str, &[Coin])]) -> (base: Self)
        ensures
            native_balances(base) == set_holdings(
                Map::<Seq<char>, Seq<CoinView>>::empty(),
                holdings_view(balances@),
            ),
    {
        Self::from_holdings(balances)
    }

    /// Answers a bank query with `cosmwasm_std::testing::MockQuerier::handle_query`. The reply to
    /// a query for one denomination holds it and what the first coin of it amounts to, zero where
    /// there is none; the reply to a query for all coins lists them, and they can be read back
    /// from it.
    #[verifier::external_body]
    pub(crate) fn handle_query(&self, query: &BankQuery) -> (text: Vec<u8>)
        ensures
            query@ matches BankQueryView::Balance { address, denom } ==> text@
                == bank_balance_json(
                (denom, amount_of(coins_held(native_balances(*self), address), denom)),
            ),
            query@ matches BankQueryView::AllBalances { address } ==> text@ == all_balances_json(
                coins_held(native_balances(*self), address),
            ) && coins_of(text@) == Some(coins_held(native_balances(*self), address)),
    {
        let query = match query.clone() {
            BankQuery::Balance { address, denom } => StdBankQuery::Balance { address, denom },
            BankQuery::AllBalances { address } => StdBankQuery::AllBalances { address },
        };
        self.inner.handle_query(&StdQueryRequest::Bank(query)).unwrap().unwrap().0
    }

    /// Sets the coins of an address with `cosmwasm_std::testing::MockQuerier::update_balance`;
    /// those of other addresses stay.
    #[verifier::external_body]
    pub(crate) fn update_balance(&mut self, address: &str, coins: Vec<Coin>)
        ensures
            native_balances(*final(self)) == native_balances(*old(self)).insert(
                address@,
                coins_view(coins@),
            ),
    {
        let coins = coins.into_iter().map(|c| StdCoin::new(c.amount, c.denom)).collect();
        self.inner.update_balance(Addr::unchecked(address), coins);
    }
}

/// Reads the reply to a query for all the coins of an address, a
/// `cosmwasm_std::AllBalanceResponse`, with `cosmwasm_std::from_binary`. What comes back depends
/// on the text alone; `None` stands for its error.
#[verifier::external_body]
pub(crate) fn read_coins(text: &[u8]) -> (coins: Option<Vec<Coin>>)
    ensures
        read_coins_view(coins) == coins_of(text@),
{
    let reply: AllBalanceResponse = from_binary(&Binary::from(text)).ok()?;
    let coin = |c: StdCoin| Coin { denom: c.denom, amount: c.amount.u128() };
    Some(reply.amount.into_iter().map(coin).collect())
}

} // verus!
