//! Numbers of single precision as whole numbers of a small unit: a number has at most 24 binary
//! digits, and a result that has more is rounded to the nearest number, halves to the even one.
use vstd::prelude::*;

verus! {

/// The whole number nearest to `n / d`, the even one of two that are equally near.
pub open spec fn nearest(n: int, d: int) -> int {
    if 2 * (n % d) < d || (2 * (n % d) == d && (n / d) % 2 == 0) {
        n / d
    } else {
        n / d + 1
    }
}

/// The number nearest to `n / d`, for a ratio that is whole or at least 0x80_0000. A smaller one is
/// rounded to a whole number: it needs a smaller unit.
pub open spec fn single_ratio(n: int, d: int) -> int
    decreases n - d,
{
    if d <= 0 || n < 0x100_0000 * d {
        nearest(n, d)
    } else {
        2 * single_ratio(n, 2 * d)
    }
}

/// The number nearest to `n`.
pub open spec fn single(n: int) -> int {
    if n < 0 {
        -single_ratio(-n, 1)
    } else {
        single_ratio(n, 1)
    }
}

proof fn large_ratio_is_bounded(n: int, d: int)
    requires
        0 < d,
        n >= 0x80_0000 * d,
    ensures
        0 <= single_ratio(n, d),
        single_ratio(n, d) * d <= 2 * n,
    decreases n - d,
{
    if n < 0x100_0000 * d {
        let whole = n / d;
        assert(0 <= whole && whole * d <= n && (whole + 1) * d == whole * d + d)
            by (nonlinear_arith)
            requires
                0 <= n,
                0 < d,
                whole == n / d,
        ;
    } else {
        large_ratio_is_bounded(n, 2 * d);
        let half = single_ratio(n, 2 * d);
        assert((2 * half) * d == half * (2 * d)) by (nonlinear_arith);
    }
}

pub(crate) proof fn ratio_is_bounded(n: int, d: int)
    requires
        0 <= n,
        0 < d,
    ensures
        0 <= single_ratio(n, d) <= 2 * n + 1,
{
    if n < 0x80_0000 * d {
        assert(0 <= n / d <= n) by (nonlinear_arith)
            requires
                0 <= n,
                0 < d,
        ;
    } else {
        large_ratio_is_bounded(n, d);
        let ratio = single_ratio(n, d);
        assert(ratio <= ratio * d) by (nonlinear_arith)
            requires
                0 <= ratio,
                0 < d,
        ;
    }
}

/// A ratio that is large enough moves by at most one part in 0x100_0000 when it is rounded.
pub proof fn ratio_is_close(n: int, d: int)
    requires
        0 < d,
        n >= 0x80_0000 * d,
    ensures
        -n <= 0x100_0000 * (single_ratio(n, d) * d - n) <= n,
    decreases n - d,
{
    if n < 0x100_0000 * d {
        let (whole, rest) = (n / d, n % d);
        vstd::arithmetic::div_mod::lemma_fundamental_div_mod(n, d);
        assert(d * whole == whole * d && (whole + 1) * d == whole * d + d) by (nonlinear_arith);
        assert(0 <= rest < d) by (nonlinear_arith)
            requires
                0 < d,
                rest == n % d,
        ;
    } else {
        ratio_is_close(n, 2 * d);
        let half = single_ratio(n, 2 * d);
        assert((2 * half) * d == half * (2 * d)) by (nonlinear_arith);
    }
}

/// Rounding moves a number by at most one part in 0x100_0000.
pub proof fn rounding_is_close(n: int)
    requires
        0 <= n,
    ensures
        -n <= 0x100_0000 * (single(n) - n) <= n,
{
    if n >= 0x80_0000 {
        ratio_is_close(n, 1);
    }
}

/// A number that is not zero is not rounded to zero.
pub proof fn ratio_is_positive(n: int, d: int)
    requires
        0 < d <= n,
    ensures
        0 < single_ratio(n, d),
    decreases n - d,
{
    if n < 0x100_0000 * d {
        assert(1 <= n / d) by (nonlinear_arith)
            requires
                0 < d <= n,
        ;
    } else {
        ratio_is_positive(n, 2 * d);
    }
}

/// A whole number of at most 24 binary digits is kept.
pub proof fn small_numbers_are_kept(n: int)
    requires
        -0x100_0000 < n < 0x100_0000,
    ensures
        single(n) == n,
{
}

/// Rounding depends on the value of a ratio alone, not on how it is written.
pub proof fn equal_ratios_round_alike(n: int, d: int, factor: int)
    requires
        0 <= n,
        0 < d,
        0 < factor,
    ensures
        single_ratio(factor * n, factor * d) == single_ratio(n, d),
    decreases n - d,
{
    assert(0 < factor * d) by (nonlinear_arith)
        requires
            0 < factor,
            0 < d,
    ;
    assert((n < 0x100_0000 * d) == (factor * n < 0x100_0000 * (factor * d))) by (nonlinear_arith)
        requires
            0 < factor,
    ;
    if n < 0x100_0000 * d {
        let (whole, rest) = (n / d, n % d);
        vstd::arithmetic::div_mod::lemma_fundamental_div_mod(n, d);
        assert(factor * n == whole * (factor * d) + factor * rest && 0 <= factor * rest < factor
            * d) by (nonlinear_arith)
            requires
                0 < factor,
                0 < d,
                n == d * whole + rest,
                0 <= rest < d,
        ;
        vstd::arithmetic::div_mod::lemma_fundamental_div_mod_converse(
            factor * n,
            factor * d,
            whole,
            factor * rest,
        );
        assert((2 * rest < d) == (2 * (factor * rest) < factor * d) && (2 * rest == d) == (2 * (
        factor * rest) == factor * d)) by (nonlinear_arith)
            requires
                0 < factor,
        ;
    } else {
        equal_ratios_round_alike(n, 2 * d, factor);
        assert(factor * (2 * d) == 2 * (factor * d)) by (nonlinear_arith);
    }
}

/// Half the unit gives the same number, in twice as many units.
pub proof fn unit_does_not_matter(n: int, d: int)
    requires
        0 < d,
        n >= 0x80_0000 * d,
    ensures
        single_ratio(2 * n, d) == 2 * single_ratio(n, d),
{
    equal_ratios_round_alike(n, d, 2);
}

/// The number nearest to `n / d`.
pub fn round_ratio(n: u128, d: u128) -> (ratio: u128)
    requires
        n <= 0x1fff_ffff_ffff_ffff_ffff_ffff_ffff_ffff,
        0 < d <= 0x1fff_ffff_ffff_ffff_ffff_ffff_ffff_ffff,
    ensures
        ratio == single_ratio(n as int, d as int),
        n >= d ==> ratio > 0,
        ratio <= 2 * n + 1,
{
    let mut scale: u128 = 1;
    let mut step: u128 = d;
    while n / step >= 0x100_0000
        invariant
            n <= 0x1fff_ffff_ffff_ffff_ffff_ffff_ffff_ffff,
            0 < scale <= step <= 0x1fff_ffff_ffff_ffff_ffff_ffff_ffff_ffff,
            single_ratio(n as int, d as int) == scale * single_ratio(n as int, step as int),
        decreases n - step,
    {
        assert(n >= 0x100_0000 * step) by (nonlinear_arith)
            requires
                0 < step,
                n / step >= 0x100_0000,
        ;
        let ghost half = single_ratio(n as int, 2 * step as int);
        assert(scale * (2 * half) == (2 * scale) * half) by (nonlinear_arith);
        scale = 2 * scale;
        step = 2 * step;
    }
    assert(n < 0x100_0000 * step) by (nonlinear_arith)
        requires
            0 < step,
            n / step < 0x100_0000,
    ;
    proof {
        ratio_is_bounded(n as int, d as int);
        if n >= d {
            ratio_is_positive(n as int, d as int);
        }
    }
    let whole: u128 = n / step;
    let twice_rest: u128 = 2 * (n % step);
    if twice_rest < step || (twice_rest == step && whole % 2 == 0) {
        scale * whole
    } else {
        scale * (whole + 1)
    }
}

/// One count by another, in units of which 2 to the power of 60 are one.
pub open spec fn share(count: int, whole: int) -> int {
    single_ratio(0x1000_0000_0000_0000 * single(count), single(whole))
}

pub fn find_share(count: u64, whole: u64) -> (ratio: u128)
    requires
        count <= 0xffff_ffff,
        0 < whole <= 0xffff_ffff,
    ensures
        ratio == share(count as int, whole as int),
        count == 0 ==> ratio == 0,
{
    let part = round(count as i128);
    let all = round(whole as i128);
    proof {
        if count == 0 {
            vstd::arithmetic::div_mod::lemma_div_basics(all as int);
            vstd::arithmetic::div_mod::lemma_small_mod(0, all as nat);
            assert(0int / all as int == 0);
        }
    }
    round_ratio(0x1000_0000_0000_0000 * part as u128, all as u128)
}

/// The number nearest to `n`.
pub fn round(n: i128) -> (rounded: i128)
    requires
        -0x1fff_ffff_ffff_ffff_ffff_ffff_ffff_ffff <= n <= 0x1fff_ffff_ffff_ffff_ffff_ffff_ffff_ffff,
    ensures
        rounded == single(n as int),
        n > 0 ==> rounded > 0,
        n >= 0 ==> 0 <= rounded <= 2 * n + 1,
        n < 0 ==> 2 * n - 1 <= rounded <= 0,
{
    if n < 0 {
        -(round_ratio((-n) as u128, 1) as i128)
    } else {
        round_ratio(n as u128, 1) as i128
    }
}

/// A whole number of at most eight digits times a power of two is kept, also as a ratio.
pub proof fn whole_ratio_is_kept(whole: int, d: int, digits: int)
    requires
        0 < d,
        0 < digits < 0x100,
        whole == 0x400_0000_0000_0000 * digits,
    ensures
        single_ratio(whole * d, d) == whole,
{
    equal_ratios_round_alike(whole, 1, d);
    assert(d * whole == whole * d && d * 1 == d) by (nonlinear_arith);
    powers_are_kept(digits, 58);
    reveal_with_fuel(power_of_two, 59);
    assert(power_of_two(58) == 0x400_0000_0000_0000);
}

spec fn power_of_two(exponent: nat) -> int
    decreases exponent,
{
    if exponent == 0 {
        1
    } else {
        2 * power_of_two((exponent - 1) as nat)
    }
}

proof fn powers_are_kept(digits: int, exponent: nat)
    requires
        0 < digits < 0x100,
        exponent <= 58,
    ensures
        0 < power_of_two(exponent),
        single_ratio(power_of_two(exponent) * digits, 1) == power_of_two(exponent) * digits,
    decreases exponent,
{
    if exponent > 0 {
        let half = power_of_two((exponent - 1) as nat) * digits;
        powers_are_kept(digits, (exponent - 1) as nat);
        assert(power_of_two(exponent) * digits == 2 * half) by (nonlinear_arith)
            requires
                power_of_two(exponent) == 2 * power_of_two((exponent - 1) as nat),
                half == power_of_two((exponent - 1) as nat) * digits,
        ;
        assert(0 < half) by (nonlinear_arith)
            requires
                half == power_of_two((exponent - 1) as nat) * digits,
                0 < power_of_two((exponent - 1) as nat),
                0 < digits,
        ;
        if half >= 0x80_0000 {
            unit_does_not_matter(half, 1);
        } else {
            small_numbers_are_kept(2 * half);
        }
    }
}

/// A share is that of the two counts, up to one part in 2 to the power of 24.
pub proof fn shares_are_close(count: int, whole: int)
    requires
        0 <= count < 0x100_0000,
        0 < whole < 0x100_0000,
    ensures
        -0x10_0000_0000 * count <= share(count, whole) * whole - 0x1000_0000_0000_0000 * count
            <= 0x10_0000_0000 * count,
{
    if count == 0 {
        vstd::arithmetic::div_mod::lemma_div_basics(whole);
        vstd::arithmetic::div_mod::lemma_small_mod(0, whole as nat);
        assert(share(count, whole) == 0);
    } else {
        ratio_is_close(0x1000_0000_0000_0000 * count, whole);
    }
}

} // verus!
