//! Arithmetic on the bits of IEEE 754 doubles, in integers.
use vstd::arithmetic::{div_mod, power2};
use vstd::prelude::*;

verus! {

/// The bits of 90.0.
pub const NINETY: u64 = 0x4056_8000_0000_0000;

/// The bits of 180.0.
pub const ONE_EIGHTY: u64 = 0x4066_8000_0000_0000;

/// The bits below the sign. Of two numbers without a sign the larger has the larger bits, and the
/// bits of what is not a number are larger than those of any number.
pub open spec fn magnitude(bits: u64) -> nat {
    (bits % 0x8000_0000_0000_0000) as nat
}

pub open spec fn is_negative(bits: u64) -> bool {
    bits >= 0x8000_0000_0000_0000
}

/// The significand of a finite double: an integer below 2^53.
pub open spec fn significand(bits: u64) -> nat {
    let fraction = magnitude(bits) % 0x10_0000_0000_0000;
    if magnitude(bits) < 0x10_0000_0000_0000 {
        fraction
    } else {
        fraction + 0x10_0000_0000_0000
    }
}

/// The exponent of a finite double: its value without the sign is
/// `significand * 2^(exponent - 1075)`.
pub open spec fn exponent(bits: u64) -> nat {
    if magnitude(bits) < 0x10_0000_0000_0000 {
        1
    } else {
        magnitude(bits) / 0x10_0000_0000_0000
    }
}

/// How many bits of `n` stand beyond the 53 that a double keeps.
pub open spec fn excess(n: nat) -> nat
    decreases n,
{
    if n < 0x20_0000_0000_0000 {
        0
    } else {
        1 + excess(n / 2)
    }
}

/// `n / d` to the nearest integer, to the even one where two are as near.
pub open spec fn nearest(n: nat, d: nat) -> nat {
    let floor = n / d;
    let twice = 2 * (n % d);
    if twice > d || (twice == d && floor % 2 == 1) {
        floor + 1
    } else {
        floor
    }
}

/// `n` rounded to 53 significant bits, as a product is.
pub open spec fn rounded(n: nat) -> nat {
    nearest(n, power2::pow2(excess(n))) * power2::pow2(excess(n))
}

/// The double times one million, as doubles are multiplied, with its fraction cut off; of a
/// double that lies between -2^53 and 2^53.
pub open spec fn millionths(bits: u64) -> int {
    let size = rounded(significand(bits) * 1_000_000) / power2::pow2((1075 - exponent(bits)) as nat);
    if is_negative(bits) {
        -(size as int)
    } else {
        size as int
    }
}

proof fn lemma_excess(n: nat)
    requires
        n < power2::pow2(73),
    ensures
        n < 0x20_0000_0000_0000 ==> excess(n) == 0,
        power2::pow2(71) <= n < power2::pow2(72) ==> excess(n) == 19,
        power2::pow2(72) <= n < power2::pow2(73) ==> excess(n) == 20,
        excess(n) <= 20,
{
    power2::lemma2_to64_rest();
    lemma_excess_below(n, 20);
    power2::lemma_pow2_adds(64, 7);
    power2::lemma_pow2_adds(64, 8);
    power2::lemma_pow2_adds(64, 9);
    power2::lemma2_to64();
    if n >= power2::pow2(71) {
        lemma_excess_from(n, 19);
    }
    if n >= power2::pow2(72) {
        lemma_excess_from(n, 20);
    }
    if n < power2::pow2(72) {
        lemma_excess_below(n, 19);
    }
}

proof fn lemma_excess_below(n: nat, k: nat)
    requires
        n < power2::pow2(53 + k),
    ensures
        excess(n) <= k,
    decreases k,
{
    power2::lemma2_to64_rest();
    if n >= 0x20_0000_0000_0000 && k > 0 {
        power2::lemma_pow2_adds((52 + k) as nat, 1);
        power2::lemma2_to64();
        lemma_excess_below(n / 2, (k - 1) as nat);
    }
}

proof fn lemma_excess_from(n: nat, k: nat)
    requires
        k >= 1,
        n >= power2::pow2((52 + k) as nat),
    ensures
        excess(n) >= k,
    decreases k,
{
    power2::lemma2_to64_rest();
    if k > 1 {
        power2::lemma_pow2_adds((51 + k) as nat, 1);
        power2::lemma2_to64();
        lemma_excess_from(n / 2, (k - 1) as nat);
        power2::lemma_pow2_strictly_increases(53, (52 + k) as nat);
    }
}

/// Rounding moves a number by at most half a unit of its last place.
proof fn lemma_rounded_is_near(n: nat)
    requires
        n < power2::pow2(73),
    ensures
        n - 0x8_0000 <= rounded(n) <= n + 0x8_0000,
{
    let k = excess(n);
    let unit = power2::pow2(k);
    lemma_excess(n);
    power2::lemma_pow2_pos(k);
    power2::lemma2_to64();
    if k < 20 {
        power2::lemma_pow2_strictly_increases(k, 20);
    }
    div_mod::lemma_fundamental_div_mod(n as int, unit as int);
    let floor = n / unit;
    assert((floor + 1) * unit == unit * floor + unit) by (nonlinear_arith);
    assert(floor * unit == unit * floor) by (nonlinear_arith);
}

/// `floor(n / 2^i) / 2`, once more.
proof fn lemma_halve(n: nat, i: nat)
    ensures
        n / power2::pow2(i) / 2 == n / power2::pow2(i + 1),
{
    power2::lemma_pow2_pos(i);
    power2::lemma_pow2_adds(i, 1);
    power2::lemma2_to64();
    div_mod::lemma_div_denominator(n as int, power2::pow2(i) as int, 2);
}

/// Cutting the fraction off a rounded product: the unit of its last place cancels.
proof fn lemma_cut(n: nat, k: nat, s: nat)
    requires
        k <= s,
    ensures
        n * power2::pow2(k) / power2::pow2(s) == n / power2::pow2((s - k) as nat),
{
    let rest = (s - k) as nat;
    power2::lemma_pow2_pos(k);
    power2::lemma_pow2_pos(rest);
    power2::lemma_pow2_adds(k, rest);
    let a = power2::pow2(k) as int;
    let b = power2::pow2(rest) as int;
    div_mod::lemma_div_denominator(n * a, a, b);
    div_mod::lemma_div_multiples_vanish(n as int, a);
    assert(n * a == a * n) by (nonlinear_arith);
}

/// The nearest integer is off by at most half.
pub proof fn lemma_nearest(n: nat, d: nat)
    requires
        d > 0,
    ensures
        2 * n - d <= 2 * (nearest(n, d) * d) <= 2 * n + d,
{
    div_mod::lemma_fundamental_div_mod(n as int, d as int);
    let floor = n / d;
    assert((floor + 1) * d == d * floor + d) by (nonlinear_arith);
    assert(floor * d == d * floor) by (nonlinear_arith);
}

/// `n / d` to the nearest integer, to the even one where two are as near.
pub fn divide(n: u128, d: u128) -> (r: u128)
    requires
        0 < d <= 0x1_0000_0000_0000_0000_0000_0000,
    ensures
        r == nearest(n as nat, d as nat),
{
    proof {
        div_mod::lemma_div_is_ordered_by_denominator(n as int, 1, d as int);
    }
    let floor = n / d;
    let twice = 2 * (n % d);
    if twice > d || (twice == d && floor % 2 == 1) {
        proof {
            if d == 1 {
                assert(n % 1 == 0);
            } else {
                div_mod::lemma_div_is_ordered_by_denominator(n as int, 2, d as int);
            }
        }
        floor + 1
    } else {
        floor
    }
}

/// Degrees in millionths, for a number of degrees up to 180 either way.
pub fn to_millionths(bits: u64) -> (r: i32)
    requires
        magnitude(bits) <= magnitude(ONE_EIGHTY),
    ensures
        r == millionths(bits),
{
    let negative = bits >= 0x8000_0000_0000_0000;
    let size = bits % 0x8000_0000_0000_0000;
    let exp = size / 0x10_0000_0000_0000;
    let fraction = size % 0x10_0000_0000_0000;
    let ghost n = significand(bits) * 1_000_000;
    let ghost shift = (1075 - exponent(bits)) as nat;
    proof {
        power2::lemma2_to64();
        power2::lemma2_to64_rest();
        power2::lemma_pow2_adds(64, 7);
        power2::lemma_pow2_adds(64, 8);
        power2::lemma_pow2_adds(64, 9);
        lemma_excess(n);
        lemma_rounded_is_near(n);
        power2::lemma_pow2_adds(64, 10);
    }
    if exp < 1000 {
        proof {
            power2::lemma_pow2_strictly_increases(74, shift);
            div_mod::lemma_basic_div(rounded(n) as int, power2::pow2(shift) as int);
        }
        return 0;
    }
    let product: u128 = (fraction + 0x10_0000_0000_0000) as u128 * 1_000_000;
    let wide = product >= 0x1_00_0000_0000_0000_0000;
    let unit: u128 = if wide {
        0x10_0000
    } else {
        0x8_0000
    };
    let near = divide(product, unit);
    let steps: u64 = 1075 - exp - if wide {
        20
    } else {
        19
    };
    let ghost k = excess(n);
    assert(near == nearest(n, power2::pow2(k)));
    let mut left = near;
    let mut i: u64 = 0;
    while i < steps
        invariant
            i <= steps,
            left == near as nat / power2::pow2(i as nat),
        decreases steps - i,
    {
        proof {
            lemma_halve(near as nat, i as nat);
        }
        left = left / 2;
        i += 1;
    }
    proof {
        lemma_cut(near as nat, k, shift);
        if steps > 25 {
            power2::lemma_pow2_strictly_increases(25, steps as nat);
        }
        div_mod::lemma_div_is_ordered_by_denominator(
            near as int,
            power2::pow2(25) as int,
            power2::pow2(steps as nat) as int,
        );
    }
    if negative {
        -(left as i32)
    } else {
        left as i32
    }
}

/// The millionths of at most 180 degrees fit.
pub proof fn lemma_millionths_fit(bits: u64)
    requires
        magnitude(bits) <= magnitude(ONE_EIGHTY),
    ensures
        i32::MIN < millionths(bits) <= i32::MAX,
{
    let n = significand(bits) * 1_000_000;
    let s = (1075 - exponent(bits)) as nat;
    power2::lemma2_to64();
    power2::lemma2_to64_rest();
    power2::lemma_pow2_adds(64, 9);
    lemma_rounded_is_near(n);
    if s > 45 {
        power2::lemma_pow2_strictly_increases(45, s);
    }
    div_mod::lemma_div_is_ordered_by_denominator(
        rounded(n) as int,
        power2::pow2(45) as int,
        power2::pow2(s) as int,
    );
}

/// Whether the double is a number between `-limit` and `limit`, for a positive number `limit`.
pub fn within(bits: u64, limit: u64) -> (r: bool)
    ensures
        r == (magnitude(bits) <= limit),
{
    bits % 0x8000_0000_0000_0000 <= limit
}

/// What is scaled loses less than one millionth and one part in 2^53: the result, in units of
/// the last place of the double, lies that near below or above the exact product.
pub proof fn law_millionths_are_near(bits: u64)
    requires
        magnitude(bits) <= magnitude(ONE_EIGHTY),
    ensures
        ({
            let exact = significand(bits) * 1_000_000;
            let unit = power2::pow2((1075 - exponent(bits)) as nat);
            let size = if is_negative(bits) {
                -millionths(bits)
            } else {
                millionths(bits)
            };
            exact - unit - 0x8_0000 < size * unit <= exact + 0x8_0000
        }),
{
    let n = significand(bits) * 1_000_000;
    let s = (1075 - exponent(bits)) as nat;
    let unit = power2::pow2(s);
    let size = rounded(n) / unit;
    power2::lemma2_to64();
    power2::lemma2_to64_rest();
    power2::lemma_pow2_adds(64, 9);
    power2::lemma_pow2_pos(s);
    lemma_rounded_is_near(n);
    div_mod::lemma_fundamental_div_mod(rounded(n) as int, unit as int);
    assert(size * unit == unit * size) by (nonlinear_arith);
}

/// A number and its negative have millionths of the same size.
pub proof fn law_millionths_are_odd(bits: u64)
    requires
        bits < 0x8000_0000_0000_0000,
    ensures
        millionths((bits + 0x8000_0000_0000_0000) as u64) == -millionths(bits),
{
    let negated = (bits + 0x8000_0000_0000_0000) as u64;
    assert(magnitude(negated) == magnitude(bits));
}

/// A finite double in units of its last place: `significand * 2^(exponent - 1075)` is
/// `significand / unit` where the exponent is at most 1075.
pub open spec fn unit(bits: u64) -> nat {
    power2::pow2((1075 - exponent(bits)) as nat)
}

/// A double's bits count its values: they are those of its significand, from 2^52 on or with the
/// smallest exponent, moved up by 2^52 for each step of the exponent.
pub proof fn law_bits_count_the_values(bits: u64)
    ensures
        significand(bits) < 0x20_0000_0000_0000,
        significand(bits) >= 0x10_0000_0000_0000 || exponent(bits) == 1,
        exponent(bits) >= 1,
        bits == (exponent(bits) - 1) * 0x10_0000_0000_0000 + significand(bits) + (if is_negative(
            bits,
        ) {
            0x8000_0000_0000_0000int
        } else {
            0
        }),
{
}

/// Rounding is to the nearest, and a tie goes to the even one: no integer lies nearer to the
/// quotient, and where two are as near the result is even.
pub proof fn law_ties_go_to_the_even(n: nat, d: nat)
    requires
        d > 0,
    ensures
        2 * n - d <= 2 * (nearest(n, d) * d) <= 2 * n + d,
        2 * (nearest(n, d) * d) == 2 * n - d || 2 * (nearest(n, d) * d) == 2 * n + d ==> nearest(
            n,
            d,
        ) % 2 == 0,
{
    lemma_nearest(n, d);
    div_mod::lemma_fundamental_div_mod(n as int, d as int);
    let floor = n / d;
    assert((floor + 1) * d == d * floor + d) by (nonlinear_arith);
    assert(floor * d == d * floor) by (nonlinear_arith);
}

/// A product keeps 53 bits: the unit that it is rounded to is 2^k for the one k that leaves it
/// between 2^52 and 2^53 units, and a product below 2^53 is kept as it is.
pub proof fn law_products_keep_53_bits(n: nat)
    ensures
        ({
            let unit = power2::pow2(excess(n));
            &&& n < 0x20_0000_0000_0000 * unit
            &&& n >= 0x20_0000_0000_0000 ==> n >= 0x10_0000_0000_0000 * unit
            &&& n < 0x20_0000_0000_0000 ==> rounded(n) == n
            &&& rounded(n) == nearest(n, unit) * unit
        }),
    decreases n,
{
    power2::lemma2_to64();
    let k = excess(n);
    if n < 0x20_0000_0000_0000 {
        assert(excess(n) == 0 && power2::pow2(0) == 1);
        assert(nearest(n, 1) == n);
        assert(n * 1 == n) by (nonlinear_arith);
    } else {
        law_products_keep_53_bits(n / 2);
        power2::lemma_pow2_unfold(k);
        let half = power2::pow2(excess(n / 2));
        assert(power2::pow2(k) == 2 * half);
        if n / 2 < 0x20_0000_0000_0000 {
            assert(excess(n / 2) == 0);
        }
    }
}

/// What is scaled is cut towards zero: the millionths of a double without a sign are the whole
/// part of the rounded product.
pub proof fn law_millionths_are_cut(bits: u64)
    ensures
        ({
            let product = rounded(significand(bits) * 1_000_000);
            let size = if is_negative(bits) {
                -millionths(bits)
            } else {
                millionths(bits)
            };
            size * unit(bits) <= product < (size + 1) * unit(bits)
        }),
{
    let product = rounded(significand(bits) * 1_000_000);
    let u = unit(bits);
    power2::lemma_pow2_pos((1075 - exponent(bits)) as nat);
    div_mod::lemma_fundamental_div_mod(product as int, u as int);
    let size = product / u;
    assert((size + 1) * u == u * size + u) by (nonlinear_arith);
    assert(size * u == u * size) by (nonlinear_arith);
}

} // verus!
