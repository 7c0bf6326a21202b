//! Short texts: decimal numbers, and lines with a limit on their bytes.
use vstd::arithmetic::power;
use vstd::prelude::*;
use vstd::string::*;
use vstd::utf8;

verus! {

/// The digit `d`.
pub open spec fn digit(d: nat) -> char {
    if d == 0 {
        '0'
    } else if d == 1 {
        '1'
    } else if d == 2 {
        '2'
    } else if d == 3 {
        '3'
    } else if d == 4 {
        '4'
    } else if d == 5 {
        '5'
    } else if d == 6 {
        '6'
    } else if d == 7 {
        '7'
    } else if d == 8 {
        '8'
    } else {
        '9'
    }
}

/// `n` in decimal, without leading zeros.
pub open spec fn decimal(n: nat) -> Seq<char>
    decreases n,
{
    if n < 10 {
        seq![digit(n)]
    } else {
        decimal(n / 10).push(digit(n % 10))
    }
}

/// `n` in decimal, with a leading zero where it is a single digit.
pub open spec fn two_digits(n: nat) -> Seq<char> {
    if n < 10 {
        seq!['0', digit(n)]
    } else {
        decimal(n)
    }
}

/// The last `p` digits of `n`, with leading zeros.
pub open spec fn padded(n: nat, p: nat) -> Seq<char>
    decreases p,
{
    if p == 0 {
        seq![]
    } else {
        padded(n / 10, (p - 1) as nat).push(digit(n % 10))
    }
}

/// The number that a digit stands for.
pub open spec fn digit_value(c: char) -> nat {
    (c as u32 - '0' as u32) as nat
}

/// The number that digits stand for.
pub open spec fn value(s: Seq<char>) -> nat
    decreases s.len(),
{
    if s.len() == 0 {
        0
    } else {
        value(s.drop_last()) * 10 + digit_value(s.last())
    }
}

/// A number that is written down can be read back, so no two are written alike.
pub proof fn law_decimal_roundtrip(n: nat)
    ensures
        value(decimal(n)) == n,
    decreases n,
{
    reveal_with_fuel(value, 2);
    if n < 10 {
        assert(decimal(n).drop_last() =~= seq![]);
    } else {
        law_decimal_roundtrip(n / 10);
        assert(decimal(n).drop_last() =~= decimal(n / 10));
    }
}

/// A number below `10^k` takes at most `k` digits; and all of them are ASCII.
pub proof fn lemma_decimal_len(n: nat)
    ensures
        1 <= decimal(n).len(),
        n < 1000 ==> decimal(n).len() <= 3,
        n < 100_000 ==> decimal(n).len() <= 5,
        utf8::is_ascii_chars(decimal(n)),
    decreases n,
{
    reveal_with_fuel(decimal, 5);
    lemma_decimal_ascii(n);
}

/// A number from `10^k` on takes more than `k` digits.
pub proof fn lemma_decimal_is_long(n: nat, k: nat)
    requires
        n >= power::pow(10, k),
    ensures
        decimal(n).len() > k,
    decreases k,
{
    if k > 0 {
        power::lemma_pow_adds(10, (k - 1) as nat, 1);
        power::lemma_pow1(10);
        power::lemma_pow_positive(10, (k - 1) as nat);
        lemma_decimal_is_long(n / 10, (k - 1) as nat);
    }
}

/// Padded digits are as many as was asked for, and ASCII.
pub proof fn lemma_padded(n: nat, p: nat)
    ensures
        padded(n, p).len() == p,
        utf8::is_ascii_chars(padded(n, p)),
    decreases p,
{
    if p > 0 {
        lemma_padded(n / 10, (p - 1) as nat);
    }
}

proof fn lemma_decimal_ascii(n: nat)
    ensures
        forall|i: int| 0 <= i < decimal(n).len() ==> '0' <= #[trigger] decimal(n)[i] <= '9',
    decreases n,
{
    if n >= 10 {
        lemma_decimal_ascii(n / 10);
        assert forall|i: int| 0 <= i < decimal(n).len() implies '0' <= #[trigger] decimal(n)[i]
            <= '9' by {
            if i < decimal(n / 10).len() {
                assert(decimal(n)[i] == decimal(n / 10)[i]);
            }
        }
    }
}

pub(crate) fn digit_text(d: u64) -> (r: &'static str)
    requires
        d < 10,
    ensures
        r@ == seq![digit(d as nat)],
{
    proof {
        reveal_strlit("0");
        reveal_strlit("1");
        reveal_strlit("2");
        reveal_strlit("3");
        reveal_strlit("4");
        reveal_strlit("5");
        reveal_strlit("6");
        reveal_strlit("7");
        reveal_strlit("8");
        reveal_strlit("9");
    }
    let r = match d {
        0 => "0",
        1 => "1",
        2 => "2",
        3 => "3",
        4 => "4",
        5 => "5",
        6 => "6",
        7 => "7",
        8 => "8",
        _ => "9",
    };
    assert(r@ =~= seq![digit(d as nat)]);
    r
}

/// Writes `n` in decimal at the end of a text.
pub fn push_decimal(text: &mut String, n: u128)
    ensures
        final(text)@ == old(text)@ + decimal(n as nat),
    decreases n,
{
    if n >= 10 {
        push_decimal(text, n / 10);
    }
    text.append(digit_text((n % 10) as u64));
    assert(text@ =~= old(text)@ + decimal(n as nat));
}

/// Writes `n` in decimal with at least two digits at the end of a text.
pub fn push_two_digits(text: &mut String, n: u64)
    ensures
        final(text)@ == old(text)@ + two_digits(n as nat),
{
    if n < 10 {
        text.append(digit_text(0));
    }
    push_decimal(text, n as u128);
    assert(text@ =~= old(text)@ + two_digits(n as nat));
}

/// Writes the last `p` digits of `n` at the end of a text.
pub fn push_padded(text: &mut String, n: u64, p: u64)
    ensures
        final(text)@ == old(text)@ + padded(n as nat, p as nat),
    decreases p,
{
    if p > 0 {
        push_padded(text, n / 10, p - 1);
        text.append(digit_text(n % 10));
    }
    assert(text@ =~= old(text)@ + padded(n as nat, p as nat));
}

/// How many bytes a text takes.
pub open spec fn byte_len(s: Seq<char>) -> nat {
    utf8::encode_utf8(s).len()
}

/// The text in a buffer of `N` bytes: `heapless::String::try_from`, read with `as_str`. It fails
/// where the text takes more than `N` bytes, and keeps the text otherwise.
#[verifier::external_body]
pub(crate) fn fit<const N: usize>(text: &str) -> (r: Option<String>)
    ensures
        r is Some <==> byte_len(text@) <= N,
        r matches Some(s) ==> s@ == text@,
{
    heapless::String::<N>::try_from(text).ok().map(|s| String::from(s.as_str()))
}

/// An ASCII text takes one byte for each character.
pub proof fn lemma_ascii_len(s: Seq<char>)
    requires
        utf8::is_ascii_chars(s),
    ensures
        byte_len(s) == s.len(),
{
    utf8::is_ascii_chars_encode_utf8(s);
}

/// Texts that are joined take the bytes of both.
pub proof fn lemma_byte_len_joins(a: Seq<char>, b: Seq<char>)
    ensures
        byte_len(a + b) == byte_len(a) + byte_len(b),
    decreases a.len(),
{
    if a.len() == 0 {
        assert(a + b =~= b);
    } else {
        lemma_byte_len_joins(a.drop_first(), b);
        assert((a + b).drop_first() =~= a.drop_first() + b);
        assert((a + b)[0] == a[0]);
    }
}

/// A text takes at least one byte for each character.
pub proof fn lemma_byte_len_is_at_least(s: Seq<char>)
    ensures
        byte_len(s) >= s.len(),
    decreases s.len(),
{
    if s.len() > 0 {
        lemma_byte_len_is_at_least(s.drop_first());
        utf8::char_is_scalar(s[0]);
    }
}

/// A decimal number is made of digits and does not start with a zero, but for zero itself; so it
/// is the one way to write the number down.
pub proof fn law_decimal_is_canonical(n: nat)
    ensures
        forall|i: int| 0 <= i < decimal(n).len() ==> '0' <= #[trigger] decimal(n)[i] <= '9',
        decimal(n).len() >= 1,
        decimal(n)[0] == '0' <==> n == 0,
        n < 10 ==> decimal(n).len() == 1,
    decreases n,
{
    lemma_decimal_ascii(n);
    if n >= 10 {
        law_decimal_is_canonical(n / 10);
        assert(decimal(n)[0] == decimal(n / 10)[0]);
    }
}

/// Two digits are two digits: a number below a hundred takes two, which stand for it, and a larger
/// one is written as it is without them.
pub proof fn law_two_digits_roundtrip(n: nat)
    ensures
        value(two_digits(n)) == n,
        n < 100 ==> two_digits(n).len() == 2,
        n >= 100 ==> two_digits(n) == decimal(n),
{
    reveal_with_fuel(value, 3);
    if n < 10 {
        let t = two_digits(n);
        assert(t.drop_last() =~= seq!['0']);
        assert(seq!['0'].drop_last() =~= seq![]);
        assert(t.last() == digit(n));
    } else {
        law_decimal_roundtrip(n);
        reveal_with_fuel(decimal, 3);
    }
}

/// What padding keeps: the last `p` digits of the number, just as many of them.
pub proof fn law_padded_roundtrip(n: nat, p: nat)
    ensures
        padded(n, p).len() == p,
        value(padded(n, p)) == n as int % power::pow(10, p),
    decreases p,
{
    lemma_padded(n, p);
    if p == 0 {
        power::lemma_pow0(10);
    } else {
        let q = (p - 1) as nat;
        law_padded_roundtrip(n / 10, q);
        assert(padded(n, p).drop_last() =~= padded(n / 10, q));
        power::lemma_pow_positive(10, q);
        power::lemma_pow_adds(10, 1, q);
        power::lemma_pow1(10);
        let d = power::pow(10, q);
        vstd::arithmetic::div_mod::lemma_breakdown(n as int, 10, d);
        assert(value(padded(n, p)) == (n as int / 10) % d * 10 + n % 10);
        assert(10 * ((n as int / 10) % d) == (n as int / 10) % d * 10);
    }
}

/// The powers of ten that decimals are cut at.
pub proof fn lemma_powers_of_ten()
    ensures
        power::pow(10, 2) == 100,
        power::pow(10, 4) == 10_000,
{
    reveal_with_fuel(power::pow, 5);
}

/// Whether a message is made of these opening words and of the whole of a detail behind them.
pub open spec fn says(message: Seq<char>, head: Seq<char>, detail: Seq<char>) -> bool {
    &&& message.len() == head.len() + detail.len()
    &&& message.take(head.len() as int) == head
    &&& message.skip(head.len() as int) == detail
}

pub proof fn lemma_says(head: Seq<char>, detail: Seq<char>)
    ensures
        says(head + detail, head, detail),
{
    assert((head + detail).take(head.len() as int) =~= head);
    assert((head + detail).skip(head.len() as int) =~= detail);
}

} // verus!
