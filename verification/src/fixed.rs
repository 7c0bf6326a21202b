//! Numbers with a fixed count of decimals.
use crate::ieee;
use crate::ieee::divide;
use crate::text;
use crate::text::{push_decimal, push_padded};
use vstd::arithmetic::{div_mod, power, power2};
use vstd::prelude::*;
use vstd::string::*;
use vstd::utf8;

verus! {

/// `h` hundredths, with two decimals.
pub open spec fn two_decimals(h: nat) -> Seq<char> {
    text::decimal(h / 100) + "."@ + text::padded(h % 100, 2)
}

/// `h` ten-thousandths, with four decimals.
pub open spec fn four_decimals(h: nat) -> Seq<char> {
    text::decimal(h / 10_000) + "."@ + text::padded(h % 10_000, 4)
}

pub open spec fn sign(negative: bool) -> Seq<char> {
    if negative {
        "-"@
    } else {
        ""@
    }
}

/// How often `n` is doubled until its millionth has the 53 bits of a double.
pub open spec fn doublings(n: nat) -> nat
    decreases 9_007_199_254_740_992_000_000 - n,
{
    if n == 0 || n >= 4_503_599_627_370_496_000_000 {
        0
    } else {
        1 + doublings(2 * n)
    }
}

/// `k` millionths as a double, in units of `2^-doublings(k)`.
pub open spec fn millionths_in_double(k: nat) -> nat {
    ieee::nearest(k * power2::pow2(doublings(k)), 1_000_000)
}

/// The hundredths nearest to the double that is nearest to `k` millionths.
pub open spec fn hundredths(k: nat) -> nat {
    ieee::nearest(millionths_in_double(k) * 100, power2::pow2(doublings(k)))
}

/// Degrees that are given in microdegrees, with two decimals.
pub open spec fn degrees_text(microdeg: int) -> Seq<char> {
    sign(microdeg < 0) + two_decimals(
        hundredths(
            (if microdeg < 0 {
                -microdeg
            } else {
                microdeg
            }) as nat,
        ),
    )
}

/// The ten-thousandths nearest to a finite double without its sign.
pub open spec fn ten_thousandths(bits: u64) -> nat {
    let n = ieee::significand(bits) * 10_000;
    let exp = ieee::exponent(bits);
    if exp >= 1075 {
        n * power2::pow2((exp - 1075) as nat)
    } else {
        ieee::nearest(n, power2::pow2((1075 - exp) as nat))
    }
}

/// A double with four decimals.
pub open spec fn double_text(bits: u64) -> Seq<char> {
    if ieee::magnitude(bits) > 0x7FF0_0000_0000_0000 {
        "NaN"@
    } else if ieee::magnitude(bits) == 0x7FF0_0000_0000_0000 {
        sign(ieee::is_negative(bits)) + "inf"@
    } else {
        sign(ieee::is_negative(bits)) + four_decimals(ten_thousandths(bits))
    }
}

fn push_two_decimals(text: &mut String, h: u128)
    ensures
        final(text)@ == old(text)@ + two_decimals(h as nat),
{
    push_decimal(text, h / 100);
    text.append(".");
    push_padded(text, (h % 100) as u64, 2);
    assert(text@ =~= old(text)@ + two_decimals(h as nat));
}

fn push_four_decimals(text: &mut String, h: u128)
    ensures
        final(text)@ == old(text)@ + four_decimals(h as nat),
{
    push_decimal(text, h / 10_000);
    text.append(".");
    push_padded(text, (h % 10_000) as u64, 4);
    assert(text@ =~= old(text)@ + four_decimals(h as nat));
}

/// Writes degrees that are given in microdegrees, with two decimals, at the end of a text.
pub fn push_degrees(text: &mut String, microdeg: i32)
    ensures
        final(text)@ == old(text)@ + degrees_text(microdeg as int),
{
    let size: u128 = if microdeg < 0 {
        text.append("-");
        (-(microdeg as i64)) as u128
    } else {
        microdeg as u128
    };
    proof {
        reveal_strlit("");
        assert(text@ =~= old(text)@ + sign(microdeg < 0));
        power2::lemma2_to64();
    }
    let mut n: u128 = size;
    let mut unit: u128 = 1;
    let ghost mut s: nat = 0;
    while n > 0 && n < 4_503_599_627_370_496_000_000
        invariant
            size <= 0x8000_0000,
            n == size * power2::pow2(s),
            unit == power2::pow2(s),
            n < 9_007_199_254_740_992_000_000,
            size > 0 ==> unit <= n,
            size == 0 ==> s == 0,
            doublings(size as nat) == s + doublings(n as nat),
        decreases 9_007_199_254_740_992_000_000 - n,
    {
        proof {
            power2::lemma_pow2_unfold(s + 1);
            assert(size * (2 * power2::pow2(s)) == 2 * (size * power2::pow2(s)))
                by (nonlinear_arith);
            s = s + 1;
        }
        n = 2 * n;
        unit = 2 * unit;
    }
    proof {
        power2::lemma_pow2_pos(s);
        power2::lemma2_to64();
    }
    let double = divide(n, 1_000_000);
    let h = divide(double * 100, unit);
    push_two_decimals(text, h);
}

proof fn lemma_doublings(k: nat)
    requires
        0 < k,
    ensures
        k * power2::pow2(doublings(k)) >= 4_503_599_627_370_496_000_000,
    decreases 9_007_199_254_740_992_000_000 - k,
{
    power2::lemma2_to64();
    if k >= 4_503_599_627_370_496_000_000 {
        assert(k * 1 == k) by (nonlinear_arith);
    } else {
        lemma_doublings(2 * k);
        let s = doublings(2 * k);
        power2::lemma_pow2_unfold(s + 1);
        let p = power2::pow2(s);
        assert(k * (2 * p) == (2 * k) * p) by (nonlinear_arith);
    }
}

/// What is shown is as near to the position as two decimals can be: the hundredths of `k`
/// millionths are off by at most half a hundredth, although they go through a double.
pub proof fn law_degrees_are_nearest(k: nat)
    requires
        k <= 0x8000_0000,
    ensures
        2 * k - 10_000 <= 2 * (hundredths(k) * 10_000) <= 2 * k + 10_000,
{
    let p = power2::pow2(doublings(k));
    let q = millionths_in_double(k);
    let h = hundredths(k);
    power2::lemma_pow2_pos(doublings(k));
    ieee::lemma_nearest(k * p, 1_000_000);
    ieee::lemma_nearest(q * 100, p);
    if k == 0 {
        assert(0 * p == 0) by (nonlinear_arith);
        power2::lemma2_to64();
    } else {
        lemma_doublings(k);
        assert(p > 1_000_000) by (nonlinear_arith)
            requires
                k * p >= 4_503_599_627_370_496_000_000,
                0 < k <= 0x8000_0000,
                0 < p,
        ;
        let off = 2 * k - 2 * (h * 10_000);
        assert(-10_001 * p < off * p < 10_001 * p) by (nonlinear_arith)
            requires
                off == 2 * k - 2 * (h * 10_000),
                2 * (k * p) - 1_000_000 <= 2 * (q * 1_000_000) <= 2 * (k * p) + 1_000_000,
                2 * (q * 100) - p <= 2 * (h * p) <= 2 * (q * 100) + p,
                p > 1_000_000,
        ;
        assert(-10_001 < off < 10_001) by (nonlinear_arith)
            requires
                -10_001 * p < off * p < 10_001 * p,
                p > 0,
        ;
    }
}

/// Degrees fit in nine characters, all of them ASCII.
pub proof fn lemma_degrees_len(microdeg: int)
    requires
        -0x8000_0000 <= microdeg <= 0x8000_0000,
    ensures
        degrees_text(microdeg).len() <= 9,
        utf8::is_ascii_chars(degrees_text(microdeg)),
{
    let k = (if microdeg < 0 {
        -microdeg
    } else {
        microdeg
    }) as nat;
    let h = hundredths(k);
    law_degrees_are_nearest(k);
    text::lemma_decimal_len(h / 100);
    text::lemma_padded(h % 100, 2);
    reveal_strlit("-");
    reveal_strlit("");
    reveal_strlit(".");
}

/// The most digits that a number may have before its point to be written.
pub const MOST_DIGITS: usize = 33;

proof fn lemma_ten_to_33()
    ensures
        power::pow(10, 33) == 1_000_000_000_000_000_000_000_000_000_000_000,
{
    power::lemma_pow1(10);
    power::lemma_pow_adds(10, 1, 1);
    power::lemma_pow_adds(10, 2, 2);
    power::lemma_pow_adds(10, 4, 4);
    power::lemma_pow_adds(10, 8, 8);
    power::lemma_pow_adds(10, 16, 16);
    power::lemma_pow_adds(10, 32, 1);
    let t1 = power::pow(10, 1);
    let t2 = power::pow(10, 2);
    let t4 = power::pow(10, 4);
    let t8 = power::pow(10, 8);
    let t16 = power::pow(10, 16);
    let t32 = power::pow(10, 32);
    assert(t8 == 100_000_000) by (nonlinear_arith)
        requires
            t1 == 10,
            t2 == t1 * t1,
            t4 == t2 * t2,
            t8 == t4 * t4,
    ;
    assert(t32 == 100_000_000_000_000_000_000_000_000_000_000) by (nonlinear_arith)
        requires
            t8 == 100_000_000,
            t16 == t8 * t8,
            t32 == t16 * t16,
    ;
}

/// A double from 2^113 on has more than `MOST_DIGITS` digits before its point.
proof fn lemma_large_double_is_long(bits: u64)
    requires
        ieee::magnitude(bits) < 0x7FF0_0000_0000_0000,
        ieee::exponent(bits) >= 1075 + 61,
    ensures
        double_text(bits).len() > MOST_DIGITS,
{
    let exp = (ieee::exponent(bits) - 1075) as nat;
    let m = ieee::significand(bits);
    let p = power2::pow2(exp);
    power2::lemma2_to64_rest();
    if exp > 61 {
        power2::lemma_pow2_strictly_increases(61, exp);
    }
    let whole = m * p;
    assert(whole >= 0x10_0000_0000_0000 * 0x2000_0000_0000_0000) by (nonlinear_arith)
        requires
            m >= 0x10_0000_0000_0000,
            p >= 0x2000_0000_0000_0000,
            whole == m * p,
    ;
    assert((m * 10_000) * p == 10_000 * whole) by (nonlinear_arith)
        requires
            whole == m * p,
    ;
    assert(ten_thousandths(bits) / 10_000 == whole);
    lemma_ten_to_33();
    text::lemma_decimal_is_long(whole, 33);
}

/// Writes a double with four decimals at the end of a text, unless it has more than `MOST_DIGITS`
/// digits before its point.
pub fn push_double(text: &mut String, bits: u64) -> (r: bool)
    ensures
        r ==> final(text)@ == old(text)@ + double_text(bits),
        !r ==> final(text)@ == old(text)@ && double_text(bits).len() > MOST_DIGITS,
{
    let size = bits % 0x8000_0000_0000_0000;
    if size > 0x7FF0_0000_0000_0000 {
        text.append("NaN");
        return true;
    }
    let small = size < 0x10_0000_0000_0000;
    let exp: u64 = if small {
        1
    } else {
        size / 0x10_0000_0000_0000
    };
    if size < 0x7FF0_0000_0000_0000 && exp >= 1075 + 61 {
        proof {
            lemma_large_double_is_long(bits);
        }
        return false;
    }
    if bits >= 0x8000_0000_0000_0000 {
        text.append("-");
    }
    proof {
        reveal_strlit("");
        assert(text@ =~= old(text)@ + sign(ieee::is_negative(bits)));
    }
    if size == 0x7FF0_0000_0000_0000 {
        text.append("inf");
        assert(text@ =~= old(text)@ + double_text(bits));
        return true;
    }
    let fraction = size % 0x10_0000_0000_0000;
    let m: u64 = if small {
        fraction
    } else {
        fraction + 0x10_0000_0000_0000
    };
    let n: u128 = m as u128 * 10_000;
    let h: u128 = if exp >= 1075 {
        proof {
            power2::lemma2_to64_rest();
            if exp - 1075 < 60 {
                power2::lemma_pow2_strictly_increases((exp - 1075) as nat, 60);
            }
            let p = power2::pow2((exp - 1075) as nat);
            assert(n * p <= 0x20_0000_0000_0000 * 10_000 * 0x1000_0000_0000_0000)
                by (nonlinear_arith)
                requires
                    0 <= n <= 0x20_0000_0000_0000 * 10_000,
                    0 <= p <= 0x1000_0000_0000_0000,
            ;
        }
        times_power(n, exp - 1075)
    } else if exp < 1005 {
        proof {
            lemma_tiny(n as nat, (1075 - exp) as nat);
        }
        0
    } else {
        proof {
            power2::lemma2_to64();
            power2::lemma_pow2_adds(64, 7);
            power2::lemma_pow2_strictly_increases((1075 - exp) as nat, 71);
            power2::lemma_pow2_pos((1075 - exp) as nat);
        }
        let unit = times_power(1, 1075 - exp);
        divide(n, unit)
    };
    push_four_decimals(text, h);
    assert(text@ =~= old(text)@ + double_text(bits));
    true
}

/// `n * 2^k`.
fn times_power(n: u128, k: u64) -> (r: u128)
    requires
        k <= 70,
        n < 0x10_0000_0000_0000_0000,
        n * power2::pow2(k as nat) <= 0xFFFF_FFFF_FFFF_FFFF_FFFF_FFFF_FFFF_FFFF,
    ensures
        r == n * power2::pow2(k as nat),
{
    let mut r = n;
    let mut i: u64 = 0;
    proof {
        power2::lemma2_to64();
        assert(n * 1 == n) by (nonlinear_arith);
    }
    while i < k
        invariant
            i <= k,
            r == n * power2::pow2(i as nat),
            n * power2::pow2(k as nat) <= 0xFFFF_FFFF_FFFF_FFFF_FFFF_FFFF_FFFF_FFFF,
        decreases k - i,
    {
        proof {
            power2::lemma_pow2_unfold((i + 1) as nat);
            if i + 1 < k {
                power2::lemma_pow2_strictly_increases((i + 1) as nat, k as nat);
            }
            let p = power2::pow2(i as nat);
            let q = power2::pow2(k as nat);
            assert(n * (2 * p) == 2 * (n * p)) by (nonlinear_arith);
            assert(n * (2 * p) <= n * q) by (nonlinear_arith)
                requires
                    2 * p <= q,
            ;
        }
        r = 2 * r;
        i += 1;
    }
    r
}

/// What is far below half a unit rounds to nothing.
proof fn lemma_tiny(n: nat, k: nat)
    requires
        k > 70,
        n < 0x10_0000_0000_0000_0000,
    ensures
        ieee::nearest(n, power2::pow2(k)) == 0,
{
    power2::lemma2_to64();
    power2::lemma_pow2_adds(64, 6);
    power2::lemma_pow2_strictly_increases(70, k);
    div_mod::lemma_basic_div(n as int, power2::pow2(k) as int);
    div_mod::lemma_small_mod(n, power2::pow2(k));
}

/// What is shown of a double is as near to it as four decimals can be: its ten-thousandths are off
/// by at most half a ten-thousandth, and a tie goes to the even one; a double without a fraction
/// is shown as it is.
pub proof fn law_four_decimals_are_nearest(bits: u64)
    ensures
        ({
            let m = ieee::significand(bits);
            let e = ieee::exponent(bits);
            let h = ten_thousandths(bits);
            if e >= 1075 {
                h == m * 10_000 * power2::pow2((e - 1075) as nat)
            } else {
                let d = power2::pow2((1075 - e) as nat);
                &&& 2 * (m * 10_000) - d <= 2 * (h * d) <= 2 * (m * 10_000) + d
                &&& 2 * (h * d) == 2 * (m * 10_000) - d || 2 * (h * d) == 2 * (m * 10_000) + d
                    ==> h % 2 == 0
            }
        }),
{
    let e = ieee::exponent(bits);
    if e < 1075 {
        power2::lemma_pow2_pos((1075 - e) as nat);
        ieee::law_ties_go_to_the_even(
            ieee::significand(bits) * 10_000,
            power2::pow2((1075 - e) as nat),
        );
    }
}

/// A number with decimals is written as it is read: the digits before the point stand for the
/// whole units and the digits behind it, always as many, for the rest.
pub proof fn law_decimals_are_read_back(h: nat)
    ensures
        ({
            let two = two_decimals(h);
            let n = two.len() - 3;
            &&& n >= 1 && two[n] == '.'
            &&& text::value(two.take(n)) * 100 + text::value(two.skip(n + 1)) == h
            &&& text::value(two.skip(n + 1)) < 100
        }),
        ({
            let four = four_decimals(h);
            let n = four.len() - 5;
            &&& n >= 1 && four[n] == '.'
            &&& text::value(four.take(n)) * 10_000 + text::value(four.skip(n + 1)) == h
            &&& text::value(four.skip(n + 1)) < 10_000
        }),
{
    reveal_strlit(".");
    let (a, b) = (h / 100, h % 100);
    let two = two_decimals(h);
    text::law_decimal_roundtrip(a);
    text::lemma_decimal_len(a);
    text::lemma_padded(b, 2);
    text::law_padded_roundtrip(b, 2);
    text::lemma_powers_of_ten();
    assert(two.take(two.len() - 3) =~= text::decimal(a));
    assert(two.skip(two.len() - 2) =~= text::padded(b, 2));
    let (a, b) = (h / 10_000, h % 10_000);
    let four = four_decimals(h);
    text::law_decimal_roundtrip(a);
    text::lemma_decimal_len(a);
    text::lemma_padded(b, 4);
    text::law_padded_roundtrip(b, 4);
    assert(four.take(four.len() - 5) =~= text::decimal(a));
    assert(four.skip(four.len() - 4) =~= text::padded(b, 4));
}

/// A minus sign stands first exactly before what is negative, and the rest is what the same number
/// without its sign gives: of degrees, and of a double that is a number.
pub proof fn law_signs_stand_first(microdeg: int, bits: u64)
    requires
        ieee::magnitude(bits) <= 0x7FF0_0000_0000_0000,
    ensures
        microdeg < 0 ==> degrees_text(microdeg) == seq!['-'] + degrees_text(-microdeg),
        microdeg >= 0 ==> degrees_text(microdeg) == two_decimals(hundredths(microdeg as nat)),
        bits >= 0x8000_0000_0000_0000 ==> double_text(bits) == seq!['-'] + double_text(
            (bits - 0x8000_0000_0000_0000) as u64,
        ),
        bits < 0x7FF0_0000_0000_0000 ==> double_text(bits) == four_decimals(ten_thousandths(bits)),
        bits == 0x7FF0_0000_0000_0000 ==> double_text(bits) == seq!['i', 'n', 'f'],
{
    reveal_strlit("-");
    reveal_strlit("");
    reveal_strlit("inf");
    assert("-"@ =~= seq!['-']);
    assert("inf"@ =~= seq!['i', 'n', 'f']);
    assert(""@ =~= Seq::<char>::empty());
    if microdeg >= 0 {
        assert(degrees_text(microdeg) =~= two_decimals(hundredths(microdeg as nat)));
    } else {
        assert(degrees_text(-microdeg) =~= two_decimals(hundredths((-microdeg) as nat)));
    }
    if bits >= 0x8000_0000_0000_0000 {
        let positive = (bits - 0x8000_0000_0000_0000) as u64;
        assert(ieee::magnitude(positive) == ieee::magnitude(bits));
        assert(double_text(bits) =~= seq!['-'] + double_text(positive));
    } else if bits < 0x7FF0_0000_0000_0000 {
        assert(double_text(bits) =~= four_decimals(ten_thousandths(bits)));
    } else {
        assert(double_text(bits) =~= "inf"@);
    }
}

/// What is not a number is shown as such, whichever of its bits are set.
pub proof fn law_not_a_number_is_shown(bits: u64)
    ensures
        double_text(bits) == seq!['N', 'a', 'N'] <==> ieee::magnitude(bits)
            > 0x7FF0_0000_0000_0000,
{
    reveal_strlit("NaN");
    reveal_strlit("-");
    reveal_strlit("");
    reveal_strlit("inf");
    reveal_strlit(".");
    if ieee::magnitude(bits) > 0x7FF0_0000_0000_0000 {
        assert(double_text(bits) =~= seq!['N', 'a', 'N']);
    } else if ieee::magnitude(bits) < 0x7FF0_0000_0000_0000 {
        let h = ten_thousandths(bits);
        text::lemma_decimal_len(h / 10_000);
        text::lemma_padded(h % 10_000, 4);
        assert(double_text(bits).len() > 3);
    } else {
        if ieee::is_negative(bits) {
            assert(double_text(bits).len() == 4);
        } else {
            assert(double_text(bits)[0] == 'i');
        }
    }
}

/// The double that stands for `k` millionths is the nearest there is, with a tie to the even one:
/// its 53 bits, of the last of which `2^doublings(k)` make one, are off by at most half.
pub proof fn law_double_of_millionths_is_nearest(k: nat)
    requires
        0 < k <= 0x8000_0000,
    ensures
        ({
            let p = power2::pow2(doublings(k));
            let q = millionths_in_double(k);
            &&& 0x10_0000_0000_0000 <= q <= 0x20_0000_0000_0000
            &&& 2 * (k * p) - 1_000_000 <= 2 * (q * 1_000_000) <= 2 * (k * p) + 1_000_000
            &&& 2 * (hundredths(k) * p) <= 2 * (q * 100) + p
            &&& 2 * (hundredths(k) * p) >= 2 * (q * 100) - p
            &&& 2 * (hundredths(k) * p) == 2 * (q * 100) + p || 2 * (hundredths(k) * p) == 2 * (q
                * 100) - p ==> hundredths(k) % 2 == 0
        }),
{
    let p = power2::pow2(doublings(k));
    power2::lemma_pow2_pos(doublings(k));
    ieee::law_ties_go_to_the_even(k * p, 1_000_000);
    ieee::law_ties_go_to_the_even(millionths_in_double(k) * 100, p);
    lemma_doublings(k);
    lemma_doublings_end(k);
}

proof fn lemma_doublings_end(k: nat)
    requires
        0 < k < 9_007_199_254_740_992_000_000,
    ensures
        k * power2::pow2(doublings(k)) < 9_007_199_254_740_992_000_000,
    decreases 9_007_199_254_740_992_000_000 - k,
{
    power2::lemma2_to64();
    if k >= 4_503_599_627_370_496_000_000 {
        assert(k * 1 == k) by (nonlinear_arith);
    } else {
        lemma_doublings_end(2 * k);
        let s = doublings(2 * k);
        power2::lemma_pow2_unfold(s + 1);
        let p = power2::pow2(s);
        assert(k * (2 * p) == (2 * k) * p) by (nonlinear_arith);
    }
}

/// Degrees of at most 180 fit in nine characters, all of them ASCII.
pub proof fn lemma_double_len(bits: u64)
    requires
        ieee::magnitude(bits) <= ieee::ONE_EIGHTY,
    ensures
        double_text(bits).len() <= 9,
        utf8::is_ascii_chars(double_text(bits)),
{
    let e = ieee::exponent(bits);
    let m = ieee::significand(bits);
    let h = ten_thousandths(bits);
    let d = power2::pow2((1075 - e) as nat);
    law_four_decimals_are_nearest(bits);
    power2::lemma2_to64();
    power2::lemma2_to64_rest();
    if e < 1030 {
        power2::lemma_pow2_strictly_increases(45, (1075 - e) as nat);
    }
    assert(m * 10_000 <= 1_800_000 * d) by {
        if e == 1030 {
            assert(d == 0x2000_0000_0000);
            assert(m <= 180 * 0x2000_0000_0000);
        } else {
            if e < 1029 {
                power2::lemma_pow2_strictly_increases(46, (1075 - e) as nat);
            }
            assert(d >= 0x4000_0000_0000);
            assert(m < 0x20_0000_0000_0000);
        }
    }
    assert(h < 10_000_000) by (nonlinear_arith)
        requires
            2 * (h * d) <= 2 * (m * 10_000) + d,
            m * 10_000 <= 1_800_000 * d,
            d > 0,
    ;
    text::lemma_decimal_len(h / 10_000);
    text::lemma_padded(h % 10_000, 4);
    reveal_strlit("-");
    reveal_strlit("");
    reveal_strlit(".");
}

} // verus!
