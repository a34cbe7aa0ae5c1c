//! The JSON text of replies.
use vstd::prelude::*;
use vstd::utf8::{encode_utf8, encode_utf8_decode_utf8};

use crate::types::CoinView;

verus! {

/// The decimal digit for `d`.
pub open spec fn digit(d: nat) -> char {
    (48 + d) as char
}

/// `n` in decimal notation, without leading zeros.
pub open spec fn digits(n: nat) -> Seq<char>
    decreases n,
{
    if n < 10 {
        seq![digit(n)]
    } else {
        digits(n / 10).push(digit(n % 10))
    }
}

/// The digits behind the point of `fraction / unit`, where `unit` is a power of ten, without
/// trailing zeros.
pub open spec fn fraction_digits(fraction: nat, unit: nat) -> Seq<char>
    decreases unit,
{
    if fraction == 0 || unit < 10 {
        Seq::empty()
    } else {
        seq![digit(fraction / (unit / 10))] + fraction_digits(fraction % (unit / 10), unit / 10)
    }
}

/// How many smallest units make up one.
pub open spec fn decimal_one() -> nat {
    1_000_000_000_000_000_000
}

/// The fixed-point number of `atomics` smallest units in decimal notation: the whole part, and
/// behind a point the fractional part if there is one.
pub open spec fn decimal_text(atomics: nat) -> Seq<char> {
    let whole = digits(atomics / decimal_one());
    let fraction = atomics % decimal_one();
    if fraction == 0 {
        whole
    } else {
        whole + seq!['.'] + fraction_digits(fraction, decimal_one())
    }
}

/// The hexadecimal digit for `d`.
pub open spec fn hex_digit(d: nat) -> char {
    if d < 10 {
        digit(d)
    } else {
        (55 + d) as char
    }
}

/// How the character `c` stands in a JSON string.
pub open spec fn escape(c: char) -> Seq<char> {
    if c == '"' || c == '\\' {
        seq!['\\', c]
    } else if c as nat >= 32 {
        seq![c]
    } else if c as nat == 8 {
        seq!['\\', 'b']
    } else if c as nat == 9 {
        seq!['\\', 't']
    } else if c as nat == 10 {
        seq!['\\', 'n']
    } else if c as nat == 12 {
        seq!['\\', 'f']
    } else if c as nat == 13 {
        seq!['\\', 'r']
    } else {
        seq!['\\', 'u', '0', '0', hex_digit(c as nat / 16), hex_digit(c as nat % 16)]
    }
}

/// The characters of `text` as they stand in a JSON string.
pub open spec fn escaped(text: Seq<char>) -> Seq<char>
    decreases text.len(),
{
    if text.len() == 0 {
        Seq::empty()
    } else {
        escape(text[0]) + escaped(text.drop_first())
    }
}

/// `text` as a JSON string.
pub open spec fn quoted(text: Seq<char>) -> Seq<char> {
    seq!['"'] + escaped(text) + seq!['"']
}

/// A number, which is written as a JSON string.
pub open spec fn number_text(n: u128) -> Seq<char> {
    seq!['"'] + digits(n as nat) + seq!['"']
}

/// A member of a JSON object.
pub open spec fn member(field: Seq<char>, value: Seq<char>) -> Seq<char> {
    seq!['"'] + field + seq!['"', ':'] + value
}

/// A JSON object with one member.
pub open spec fn object(field: Seq<char>, value: Seq<char>) -> Seq<char> {
    seq!['{'] + member(field, value) + seq!['}']
}

/// A coin as a JSON object.
pub open spec fn coin_text(coin: CoinView) -> Seq<char> {
    seq!['{'] + member("denom"@, quoted(coin.0)) + seq![','] + member(
        "amount"@,
        number_text(coin.1),
    ) + seq!['}']
}

/// Coins as JSON objects, with commas between them.
pub open spec fn coins_text(coins: Seq<CoinView>) -> Seq<char>
    decreases coins.len(),
{
    if coins.len() == 0 {
        Seq::empty()
    } else if coins.len() == 1 {
        coin_text(coins[0])
    } else {
        coin_text(coins[0]) + seq![','] + coins_text(coins.drop_first())
    }
}

/// The reply that consists of a number.
pub open spec fn number_json(n: u128) -> Seq<u8> {
    encode_utf8(number_text(n))
}

/// The reply whose one field holds a number.
pub open spec fn number_field_json(field: Seq<char>, n: u128) -> Seq<u8> {
    encode_utf8(object(field, number_text(n)))
}

/// The reply whose one field holds the fixed-point number of `atomics` smallest units.
pub open spec fn decimal_field_json(field: Seq<char>, atomics: nat) -> Seq<u8> {
    encode_utf8(object(field, seq!['"'] + decimal_text(atomics) + seq!['"']))
}

/// The reply to a query for one denomination.
pub open spec fn bank_balance_json(coin: CoinView) -> Seq<u8> {
    encode_utf8(object("amount"@, coin_text(coin)))
}

/// The reply to a query for all the coins of an address.
pub open spec fn all_balances_json(coins: Seq<CoinView>) -> Seq<u8> {
    encode_utf8(object("amount"@, seq!['['] + coins_text(coins) + seq![']']))
}

/// The description of a token.
pub open spec fn token_info_json(
    name: Seq<char>,
    symbol: Seq<char>,
    decimals: u8,
    total_supply: u128,
) -> Seq<u8> {
    encode_utf8(
        seq!['{'] + member("name"@, quoted(name)) + seq![','] + member("symbol"@, quoted(symbol))
            + seq![','] + member("decimals"@, digits(decimals as nat)) + seq![','] + member(
            "total_supply"@,
            number_text(total_supply),
        ) + seq!['}'],
    )
}

proof fn lemma_digit(a: nat, b: nat)
    requires
        a < 10,
        b < 10,
        digit(a) == digit(b),
    ensures
        a == b,
{
    assert(digit(a) as nat == 48 + a);
    assert(digit(b) as nat == 48 + b);
}

/// Every character of a number in decimal notation is a digit.
proof fn lemma_digits_are_digits(n: nat)
    ensures
        digits(n).len() > 0,
        forall|i: int| 0 <= i < digits(n).len() ==> 48 <= (#[trigger] digits(n)[i]) as nat <= 57,
    decreases n,
{
    if n >= 10 {
        lemma_digits_are_digits(n / 10);
    }
}

/// From its decimal notation a number can be told.
pub proof fn digits_are_unambiguous(a: nat, b: nat)
    requires
        digits(a) == digits(b),
    ensures
        a == b,
    decreases a,
{
    if a < 10 && b < 10 {
        assert(digits(a)[0] == digit(a));
        assert(digits(b)[0] == digit(b));
        lemma_digit(a, b);
    } else if a >= 10 && b >= 10 {
        assert(digits(a).last() == digit(a % 10));
        assert(digits(b).last() == digit(b % 10));
        lemma_digit(a % 10, b % 10);
        assert(digits(a).drop_last() =~= digits(a / 10));
        assert(digits(b).drop_last() =~= digits(b / 10));
        digits_are_unambiguous(a / 10, b / 10);
    } else if a >= 10 {
        lemma_digits_are_digits(a / 10);
        assert(digits(a).len() > 1);
    } else {
        lemma_digits_are_digits(b / 10);
        assert(digits(b).len() > 1);
    }
}

/// Of two texts that go on alike behind a mark which neither of them holds, both the text before
/// the mark and what follows are the same.
proof fn lemma_split(
    a: Seq<char>,
    rest_a: Seq<char>,
    b: Seq<char>,
    rest_b: Seq<char>,
    mark: char,
)
    requires
        forall|i: int| 0 <= i < a.len() ==> #[trigger] a[i] != mark,
        forall|i: int| 0 <= i < b.len() ==> #[trigger] b[i] != mark,
        a + seq![mark] + rest_a == b + seq![mark] + rest_b,
    ensures
        a == b,
        rest_a == rest_b,
{
    let whole = a + seq![mark] + rest_a;
    assert(whole[a.len() as int] == mark);
    assert(whole[b.len() as int] == mark);
    if a.len() < b.len() {
        assert(whole[a.len() as int] == b[a.len() as int]);
    } else if b.len() < a.len() {
        assert(whole[b.len() as int] == a[b.len() as int]);
    }
    assert(whole.take(a.len() as int) =~= a);
    assert(whole.take(a.len() as int) =~= b);
    assert(whole.skip(a.len() as int + 1) =~= rest_a);
    assert(whole.skip(a.len() as int + 1) =~= rest_b);
}

proof fn lemma_cancel(start: Seq<char>, a: Seq<char>, b: Seq<char>)
    requires
        start + a == start + b,
    ensures
        a == b,
{
    assert((start + a).skip(start.len() as int) =~= a);
    assert((start + b).skip(start.len() as int) =~= b);
}

proof fn lemma_encode(a: Seq<char>, b: Seq<char>)
    requires
        encode_utf8(a) == encode_utf8(b),
    ensures
        a == b,
{
    encode_utf8_decode_utf8(a);
    encode_utf8_decode_utf8(b);
}

proof fn lemma_hex_digit(a: nat, b: nat)
    requires
        a < 16,
        b < 16,
        hex_digit(a) == hex_digit(b),
    ensures
        a == b,
{
    assert(hex_digit(a) as nat == if a < 10 { 48 + a } else { 55 + a });
    assert(hex_digit(b) as nat == if b < 10 { 48 + b } else { 55 + b });
}

/// A character of a JSON string ends where it can be told to end.
proof fn lemma_escape(a: char, rest_a: Seq<char>, b: char, rest_b: Seq<char>)
    requires
        escape(a) + rest_a == escape(b) + rest_b,
    ensures
        a == b,
        rest_a == rest_b,
{
    let whole = escape(a) + rest_a;
    assert(whole[0] == escape(a)[0]);
    assert(whole[0] == escape(b)[0]);
    if whole[0] == '\\' {
        assert(whole[1] == escape(a)[1]);
        assert(whole[1] == escape(b)[1]);
        if whole[1] == 'u' {
            assert(whole[4] == escape(a)[4]);
            assert(whole[4] == escape(b)[4]);
            assert(whole[5] == escape(a)[5]);
            assert(whole[5] == escape(b)[5]);
            lemma_hex_digit(a as nat / 16, b as nat / 16);
            lemma_hex_digit(a as nat % 16, b as nat % 16);
            assert(a as nat == b as nat);
        }
    }
    lemma_cancel(escape(a), rest_a, rest_b);
}

/// The characters of a JSON string end at the quotation mark.
proof fn lemma_escaped(a: Seq<char>, rest_a: Seq<char>, b: Seq<char>, rest_b: Seq<char>)
    requires
        escaped(a) + (seq!['"'] + rest_a) == escaped(b) + (seq!['"'] + rest_b),
    ensures
        a == b,
        rest_a == rest_b,
    decreases a.len(),
{
    let end_a = seq!['"'] + rest_a;
    let end_b = seq!['"'] + rest_b;
    let whole = escaped(a) + end_a;
    if a.len() == 0 && b.len() == 0 {
        assert(whole =~= end_a);
        assert(whole =~= end_b);
        lemma_cancel(seq!['"'], rest_a, rest_b);
    } else if a.len() == 0 {
        assert(whole[0] == '"');
        assert(whole[0] == escape(b[0])[0]);
    } else if b.len() == 0 {
        assert(whole[0] == '"');
        assert(whole[0] == escape(a[0])[0]);
    } else {
        let next_a = escaped(a.drop_first()) + end_a;
        let next_b = escaped(b.drop_first()) + end_b;
        assert(whole =~= escape(a[0]) + next_a);
        assert(whole =~= escape(b[0]) + next_b);
        lemma_escape(a[0], next_a, b[0], next_b);
        lemma_escaped(a.drop_first(), rest_a, b.drop_first(), rest_b);
        assert(a =~= seq![a[0]] + a.drop_first());
        assert(b =~= seq![b[0]] + b.drop_first());
    }
}

/// A JSON string ends where it can be told to end.
proof fn lemma_quoted(a: Seq<char>, rest_a: Seq<char>, b: Seq<char>, rest_b: Seq<char>)
    requires
        quoted(a) + rest_a == quoted(b) + rest_b,
    ensures
        a == b,
        rest_a == rest_b,
{
    let inner_a = escaped(a) + (seq!['"'] + rest_a);
    let inner_b = escaped(b) + (seq!['"'] + rest_b);
    assert(quoted(a) + rest_a =~= seq!['"'] + inner_a);
    assert(quoted(b) + rest_b =~= seq!['"'] + inner_b);
    lemma_cancel(seq!['"'], inner_a, inner_b);
    lemma_escaped(a, rest_a, b, rest_b);
}

/// A number that is written as a string ends where it can be told to end.
proof fn lemma_number(a: u128, rest_a: Seq<char>, b: u128, rest_b: Seq<char>)
    requires
        number_text(a) + rest_a == number_text(b) + rest_b,
    ensures
        a == b,
        rest_a == rest_b,
{
    let inner_a = digits(a as nat) + seq!['"'] + rest_a;
    let inner_b = digits(b as nat) + seq!['"'] + rest_b;
    assert(number_text(a) + rest_a =~= seq!['"'] + inner_a);
    assert(number_text(b) + rest_b =~= seq!['"'] + inner_b);
    lemma_cancel(seq!['"'], inner_a, inner_b);
    lemma_digits_are_digits(a as nat);
    lemma_digits_are_digits(b as nat);
    lemma_split(digits(a as nat), rest_a, digits(b as nat), rest_b, '"');
    digits_are_unambiguous(a as nat, b as nat);
}

proof fn lemma_member(
    field: Seq<char>,
    a: Seq<char>,
    rest_a: Seq<char>,
    b: Seq<char>,
    rest_b: Seq<char>,
)
    requires
        member(field, a) + rest_a == member(field, b) + rest_b,
    ensures
        a + rest_a == b + rest_b,
{
    let start = seq!['"'] + field + seq!['"', ':'];
    assert(member(field, a) + rest_a =~= start + (a + rest_a));
    assert(member(field, b) + rest_b =~= start + (b + rest_b));
    lemma_cancel(start, a + rest_a, b + rest_b);
}

proof fn lemma_object(field: Seq<char>, a: Seq<char>, b: Seq<char>)
    requires
        encode_utf8(object(field, a)) == encode_utf8(object(field, b)),
    ensures
        a + seq!['}'] == b + seq!['}'],
{
    lemma_encode(object(field, a), object(field, b));
    assert(object(field, a) =~= seq!['{'] + (member(field, a) + seq!['}']));
    assert(object(field, b) =~= seq!['{'] + (member(field, b) + seq!['}']));
    lemma_cancel(seq!['{'], member(field, a) + seq!['}'], member(field, b) + seq!['}']);
    lemma_member(field, a, seq!['}'], b, seq!['}']);
}

/// A coin ends where it can be told to end.
proof fn lemma_coin(a: CoinView, rest_a: Seq<char>, b: CoinView, rest_b: Seq<char>)
    requires
        coin_text(a) + rest_a == coin_text(b) + rest_b,
    ensures
        a == b,
        rest_a == rest_b,
{
    let end_a = seq!['}'] + rest_a;
    let end_b = seq!['}'] + rest_b;
    let amount_a = member("amount"@, number_text(a.1)) + end_a;
    let amount_b = member("amount"@, number_text(b.1)) + end_b;
    let denom_a = member("denom"@, quoted(a.0)) + (seq![','] + amount_a);
    let denom_b = member("denom"@, quoted(b.0)) + (seq![','] + amount_b);
    assert(coin_text(a) + rest_a =~= seq!['{'] + denom_a);
    assert(coin_text(b) + rest_b =~= seq!['{'] + denom_b);
    lemma_cancel(seq!['{'], denom_a, denom_b);
    lemma_member(
        "denom"@,
        quoted(a.0),
        seq![','] + amount_a,
        quoted(b.0),
        seq![','] + amount_b,
    );
    lemma_quoted(a.0, seq![','] + amount_a, b.0, seq![','] + amount_b);
    lemma_cancel(seq![','], amount_a, amount_b);
    lemma_member("amount"@, number_text(a.1), end_a, number_text(b.1), end_b);
    lemma_number(a.1, end_a, b.1, end_b);
    lemma_cancel(seq!['}'], rest_a, rest_b);
}

/// What follows the first coin of a list.
spec fn coins_tail(coins: Seq<CoinView>) -> Seq<char> {
    if coins.len() == 1 {
        Seq::empty()
    } else {
        seq![','] + coins_text(coins.drop_first())
    }
}

/// A list of coins ends at the bracket.
proof fn lemma_coins(a: Seq<CoinView>, rest_a: Seq<char>, b: Seq<CoinView>, rest_b: Seq<char>)
    requires
        coins_text(a) + (seq![']'] + rest_a) == coins_text(b) + (seq![']'] + rest_b),
    ensures
        a == b,
        rest_a == rest_b,
    decreases a.len(),
{
    let end_a = seq![']'] + rest_a;
    let end_b = seq![']'] + rest_b;
    let whole = coins_text(a) + end_a;
    if a.len() == 0 && b.len() == 0 {
        assert(whole =~= end_a);
        assert(whole =~= end_b);
        lemma_cancel(seq![']'], rest_a, rest_b);
    } else if a.len() == 0 {
        assert(whole[0] == ']');
        assert(whole[0] == coin_text(b[0])[0]);
    } else if b.len() == 0 {
        assert(whole[0] == ']');
        assert(whole[0] == coin_text(a[0])[0]);
    } else {
        let next_a = coins_tail(a) + end_a;
        let next_b = coins_tail(b) + end_b;
        assert(whole =~= coin_text(a[0]) + next_a);
        assert(whole =~= coin_text(b[0]) + next_b);
        lemma_coin(a[0], next_a, b[0], next_b);
        if a.len() == 1 && b.len() == 1 {
            assert(next_a =~= end_a);
            assert(next_b =~= end_b);
            lemma_cancel(seq![']'], rest_a, rest_b);
        } else if a.len() == 1 {
            assert(next_a[0] == ']');
            assert(next_a[0] == ',');
        } else if b.len() == 1 {
            assert(next_a[0] == ']');
            assert(next_a[0] == ',');
        } else {
            let more_a = coins_text(a.drop_first()) + end_a;
            let more_b = coins_text(b.drop_first()) + end_b;
            assert(next_a =~= seq![','] + more_a);
            assert(next_b =~= seq![','] + more_b);
            lemma_cancel(seq![','], more_a, more_b);
            lemma_coins(a.drop_first(), rest_a, b.drop_first(), rest_b);
        }
        assert(a =~= seq![a[0]] + a.drop_first());
        assert(b =~= seq![b[0]] + b.drop_first());
    }
}

/// `10` to the power of `k`.
spec fn tens(k: nat) -> nat
    decreases k,
{
    if k == 0 {
        1
    } else {
        10 * tens((k - 1) as nat)
    }
}

/// From its digits behind the point a fraction can be told.
proof fn lemma_fraction_digits(a: nat, b: nat, k: nat)
    requires
        a < tens(k),
        b < tens(k),
        fraction_digits(a, tens(k)) == fraction_digits(b, tens(k)),
    ensures
        a == b,
    decreases k,
{
    if k > 0 {
        let unit = tens((k - 1) as nat);
        assert(tens(k) == 10 * unit);
        assert(unit > 0);
        assert(tens(k) / 10 == unit);
        let text_a = fraction_digits(a, tens(k));
        let text_b = fraction_digits(b, tens(k));
        if a > 0 && b > 0 {
            assert(text_a[0] == digit(a / unit));
            assert(text_b[0] == digit(b / unit));
            assert(a / unit < 10 && a % unit < unit && a == unit * (a / unit) + a % unit)
                by (nonlinear_arith)
                requires
                    unit > 0,
                    a < 10 * unit,
            ;
            assert(b / unit < 10 && b % unit < unit && b == unit * (b / unit) + b % unit)
                by (nonlinear_arith)
                requires
                    unit > 0,
                    b < 10 * unit,
            ;
            lemma_digit(a / unit, b / unit);
            lemma_cancel(
                seq![digit(a / unit)],
                fraction_digits(a % unit, unit),
                fraction_digits(b % unit, unit),
            );
            lemma_fraction_digits(a % unit, b % unit, (k - 1) as nat);
        } else if a > 0 {
            assert(text_a.len() > 0);
        } else if b > 0 {
            assert(text_b.len() > 0);
        }
    }
}

/// From its decimal notation a fixed-point number can be told.
pub proof fn decimal_text_is_unambiguous(a: nat, b: nat)
    requires
        decimal_text(a) == decimal_text(b),
    ensures
        a == b,
{
    let one = decimal_one();
    let whole_a = digits(a / one);
    let whole_b = digits(b / one);
    lemma_digits_are_digits(a / one);
    lemma_digits_are_digits(b / one);
    if a % one == 0 && b % one == 0 {
        digits_are_unambiguous(a / one, b / one);
    } else if a % one == 0 {
        assert(decimal_text(b)[whole_b.len() as int] == '.');
        assert(whole_a[whole_b.len() as int] == '.');
    } else if b % one == 0 {
        assert(decimal_text(a)[whole_a.len() as int] == '.');
        assert(whole_b[whole_a.len() as int] == '.');
    } else {
        lemma_split(
            whole_a,
            fraction_digits(a % one, one),
            whole_b,
            fraction_digits(b % one, one),
            '.',
        );
        digits_are_unambiguous(a / one, b / one);
        assert(tens(18) == one) by {
            reveal_with_fuel(tens, 19);
        }
        lemma_fraction_digits(a % one, b % one, 18);
    }
}

/// From a reply that consists of a number the number can be told.
pub proof fn number_json_is_unambiguous(a: u128, b: u128)
    requires
        number_json(a) == number_json(b),
    ensures
        a == b,
{
    lemma_encode(number_text(a), number_text(b));
    lemma_number(a, Seq::empty(), b, Seq::empty());
}

/// From a reply whose one field holds a number the number can be told.
pub proof fn number_field_json_is_unambiguous(field: Seq<char>, a: u128, b: u128)
    requires
        number_field_json(field, a) == number_field_json(field, b),
    ensures
        a == b,
{
    lemma_object(field, number_text(a), number_text(b));
    lemma_number(a, seq!['}'], b, seq!['}']);
}

/// From a reply whose one field holds a fixed-point number the number can be told.
pub proof fn decimal_field_json_is_unambiguous(field: Seq<char>, a: nat, b: nat)
    requires
        decimal_field_json(field, a) == decimal_field_json(field, b),
    ensures
        a == b,
{
    let text_a = seq!['"'] + decimal_text(a) + seq!['"'];
    let text_b = seq!['"'] + decimal_text(b) + seq!['"'];
    lemma_object(field, text_a, text_b);
    let whole = text_a + seq!['}'];
    assert(whole.subrange(1, whole.len() - 2) =~= decimal_text(a));
    assert(whole.subrange(1, whole.len() - 2) =~= decimal_text(b));
    decimal_text_is_unambiguous(a, b);
}

/// From the reply to a query for one denomination the coin can be told.
pub proof fn bank_balance_json_is_unambiguous(a: CoinView, b: CoinView)
    requires
        bank_balance_json(a) == bank_balance_json(b),
    ensures
        a == b,
{
    lemma_object("amount"@, coin_text(a), coin_text(b));
    lemma_coin(a, seq!['}'], b, seq!['}']);
}

/// From the reply to a query for all the coins of an address the coins can be told, with their
/// order.
pub proof fn all_balances_json_is_unambiguous(a: Seq<CoinView>, b: Seq<CoinView>)
    requires
        all_balances_json(a) == all_balances_json(b),
    ensures
        a == b,
{
    let text_a = seq!['['] + coins_text(a) + seq![']'];
    let text_b = seq!['['] + coins_text(b) + seq![']'];
    lemma_object("amount"@, text_a, text_b);
    let inner_a = coins_text(a) + (seq![']'] + seq!['}']);
    let inner_b = coins_text(b) + (seq![']'] + seq!['}']);
    assert(text_a + seq!['}'] =~= seq!['['] + inner_a);
    assert(text_b + seq!['}'] =~= seq!['['] + inner_b);
    lemma_cancel(seq!['['], inner_a, inner_b);
    lemma_coins(a, seq!['}'], b, seq!['}']);
}

/// From the description of a token its supply can be told.
pub proof fn token_info_json_tells_the_supply(
    name: Seq<char>,
    symbol: Seq<char>,
    decimals: u8,
    a: u128,
    b: u128,
)
    requires
        token_info_json(name, symbol, decimals, a) == token_info_json(name, symbol, decimals, b),
    ensures
        a == b,
{
    let start = seq!['{'] + member("name"@, quoted(name)) + seq![','] + member(
        "symbol"@,
        quoted(symbol),
    ) + seq![','] + member("decimals"@, digits(decimals as nat)) + seq![','];
    let supply_a = member("total_supply"@, number_text(a)) + seq!['}'];
    let supply_b = member("total_supply"@, number_text(b)) + seq!['}'];
    lemma_encode(
        start + member("total_supply"@, number_text(a)) + seq!['}'],
        start + member("total_supply"@, number_text(b)) + seq!['}'],
    );
    assert(start + member("total_supply"@, number_text(a)) + seq!['}'] =~= start + supply_a);
    assert(start + member("total_supply"@, number_text(b)) + seq!['}'] =~= start + supply_b);
    lemma_cancel(start, supply_a, supply_b);
    lemma_member("total_supply"@, number_text(a), seq!['}'], number_text(b), seq!['}']);
    lemma_number(a, seq!['}'], b, seq!['}']);
}

/// A number in decimal notation is that of its tenth with its last digit behind it.
pub proof fn digits_are_decimal(tens_part: nat, last: nat)
    requires
        last < 10,
    ensures
        digits(last) == seq![(48 + last) as char],
        tens_part > 0 ==> digits(10 * tens_part + last) == digits(tens_part).push(
            (48 + last) as char,
        ),
{
    assert((10 * tens_part + last) / 10 == tens_part);
    assert((10 * tens_part + last) % 10 == last);
}

/// What stands around a number in a reply: the quotation marks, and the braces and the field.
pub proof fn replies_are_written(field: Seq<char>, n: u128, atomics: nat)
    ensures
        number_json(n) == encode_utf8(seq!['"'] + digits(n as nat) + seq!['"']),
        number_field_json(field, n) == encode_utf8(
            seq!['{', '"'] + field + seq!['"', ':', '"'] + digits(n as nat) + seq!['"', '}'],
        ),
        decimal_field_json(field, atomics) == encode_utf8(
            seq!['{', '"'] + field + seq!['"', ':', '"'] + decimal_text(atomics) + seq!['"', '}'],
        ),
{
    assert(object(field, number_text(n)) =~= seq!['{', '"'] + field + seq!['"', ':', '"']
        + digits(n as nat) + seq!['"', '}']);
    assert(object(field, seq!['"'] + decimal_text(atomics) + seq!['"']) =~= seq!['{', '"'] + field
        + seq!['"', ':', '"'] + decimal_text(atomics) + seq!['"', '}']);
}

/// The last two members of a description, with what surrounds them.
spec fn info_end(decimals: u8, total_supply: u128) -> Seq<char> {
    member("decimals"@, digits(decimals as nat)) + (seq![','] + (member(
        "total_supply"@,
        number_text(total_supply),
    ) + seq!['}']))
}

/// The description of a token, taken apart from the front.
proof fn lemma_info_text(name: Seq<char>, symbol: Seq<char>, decimals: u8, total_supply: u128)
    ensures
        token_info_json(name, symbol, decimals, total_supply) == encode_utf8(
            seq!['{'] + (member("name"@, quoted(name)) + (seq![','] + (member(
                "symbol"@,
                quoted(symbol),
            ) + (seq![','] + info_end(decimals, total_supply))))),
        ),
{
    let a = seq!['{'] + member("name"@, quoted(name)) + seq![','];
    let b = member("symbol"@, quoted(symbol));
    let c = member("decimals"@, digits(decimals as nat));
    let d = member("total_supply"@, number_text(total_supply));
    assert(a + b + seq![','] + c + seq![','] + d + seq!['}'] =~= a + (b + (seq![','] + info_end(
        decimals,
        total_supply,
    ))));
    let rest = b + (seq![','] + info_end(decimals, total_supply));
    assert(a + rest =~= seq!['{'] + (member("name"@, quoted(name)) + (seq![','] + rest)));
}

/// A member that holds a JSON string ends where it can be told to end.
proof fn lemma_quoted_member(
    field: Seq<char>,
    a: Seq<char>,
    rest_a: Seq<char>,
    b: Seq<char>,
    rest_b: Seq<char>,
)
    requires
        member(field, quoted(a)) + (seq![','] + rest_a) == member(field, quoted(b)) + (seq![',']
            + rest_b),
    ensures
        a == b,
        rest_a == rest_b,
{
    lemma_member(field, quoted(a), seq![','] + rest_a, quoted(b), seq![','] + rest_b);
    lemma_quoted(a, seq![','] + rest_a, b, seq![','] + rest_b);
    lemma_cancel(seq![','], rest_a, rest_b);
}

proof fn lemma_info_end(decimals_a: u8, supply_a: u128, decimals_b: u8, supply_b: u128)
    requires
        info_end(decimals_a, supply_a) == info_end(decimals_b, supply_b),
    ensures
        decimals_a == decimals_b,
        supply_a == supply_b,
{
    let end = seq!['}'];
    let last_a = member("total_supply"@, number_text(supply_a)) + end;
    let last_b = member("total_supply"@, number_text(supply_b)) + end;
    let number_a = digits(decimals_a as nat);
    let number_b = digits(decimals_b as nat);
    lemma_member("decimals"@, number_a, seq![','] + last_a, number_b, seq![','] + last_b);
    lemma_digits_are_digits(decimals_a as nat);
    lemma_digits_are_digits(decimals_b as nat);
    assert(number_a + (seq![','] + last_a) =~= number_a + seq![','] + last_a);
    assert(number_b + (seq![','] + last_b) =~= number_b + seq![','] + last_b);
    lemma_split(number_a, last_a, number_b, last_b, ',');
    digits_are_unambiguous(decimals_a as nat, decimals_b as nat);
    lemma_member("total_supply"@, number_text(supply_a), end, number_text(supply_b), end);
    lemma_number(supply_a, end, supply_b, end);
}

/// From the description of a token all four of its parts can be told.
pub proof fn token_info_json_is_unambiguous(
    name_a: Seq<char>,
    symbol_a: Seq<char>,
    decimals_a: u8,
    supply_a: u128,
    name_b: Seq<char>,
    symbol_b: Seq<char>,
    decimals_b: u8,
    supply_b: u128,
)
    requires
        token_info_json(name_a, symbol_a, decimals_a, supply_a) == token_info_json(
            name_b,
            symbol_b,
            decimals_b,
            supply_b,
        ),
    ensures
        name_a == name_b,
        symbol_a == symbol_b,
        decimals_a == decimals_b,
        supply_a == supply_b,
{
    let third_a = info_end(decimals_a, supply_a);
    let third_b = info_end(decimals_b, supply_b);
    let second_a = member("symbol"@, quoted(symbol_a)) + (seq![','] + third_a);
    let second_b = member("symbol"@, quoted(symbol_b)) + (seq![','] + third_b);
    let first_a = member("name"@, quoted(name_a)) + (seq![','] + second_a);
    let first_b = member("name"@, quoted(name_b)) + (seq![','] + second_b);
    lemma_info_text(name_a, symbol_a, decimals_a, supply_a);
    lemma_info_text(name_b, symbol_b, decimals_b, supply_b);
    lemma_encode(seq!['{'] + first_a, seq!['{'] + first_b);
    lemma_cancel(seq!['{'], first_a, first_b);
    lemma_quoted_member("name"@, name_a, second_a, name_b, second_b);
    lemma_quoted_member("symbol"@, symbol_a, third_a, symbol_b, third_b);
    lemma_info_end(decimals_a, supply_a, decimals_b, supply_b);
}

} // verus!
