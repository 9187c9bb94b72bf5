//! Overflow-safe integer arithmetic: a multiply-then-divide through a wide
//! intermediate, and an exact integer square root.

use vstd::prelude::*;

verus! {

/// `r` is the integer square root of `n`: the one number whose square is at
/// most `n` while the square of its successor is more.
pub open spec fn is_floor_sqrt(n: int, r: int) -> bool {
    0 <= r && r * r <= n && n < (r + 1) * (r + 1)
}

/// The integer square root of `n`, rounded down.
pub open spec fn floor_sqrt(n: int) -> int {
    choose|r: int| is_floor_sqrt(n, r)
}

/// `floor(a * b / d)`, over the integers.
pub open spec fn mul_div_floor(a: int, b: int, d: int) -> int {
    (a * b) / d
}

proof fn lemma_square_monotonic(a: int, b: int)
    requires
        0 <= a <= b,
    ensures
        a * a <= b * b,
{
    assert(a * a <= b * b) by (nonlinear_arith)
        requires
            0 <= a <= b,
    ;
}

/// Every natural number has an integer square root, and [`floor_sqrt`] is
/// it.
pub proof fn lemma_floor_sqrt_is_root(n: int)
    requires
        0 <= n,
    ensures
        is_floor_sqrt(n, floor_sqrt(n)),
    decreases n,
{
    if n == 0 {
        assert(is_floor_sqrt(0, 0));
    } else {
        lemma_floor_sqrt_is_root(n - 1);
        let r = floor_sqrt(n - 1);
        if (r + 1) * (r + 1) <= n {
            assert(n < (r + 2) * (r + 2)) by (nonlinear_arith)
                requires
                    n - 1 < (r + 1) * (r + 1),
                    0 <= r,
            ;
            assert(is_floor_sqrt(n, r + 1));
        } else {
            assert(is_floor_sqrt(n, r));
        }
    }
}

/// A number has one integer square root only, so whatever number passes
/// [`is_floor_sqrt`] is [`floor_sqrt`].
pub proof fn lemma_floor_sqrt_unique(n: int, r: int)
    requires
        is_floor_sqrt(n, r),
    ensures
        floor_sqrt(n) == r,
{
    let s = floor_sqrt(n);
    assert(is_floor_sqrt(n, s));
    if s < r {
        lemma_square_monotonic(s + 1, r);
    } else if r < s {
        lemma_square_monotonic(r + 1, s);
    }
}

/// The integer square root, by bisection: exact for every input, with no
/// floating point.
pub fn integer_sqrt(n: u128) -> (root: u64)
    ensures
        root as int == floor_sqrt(n as int),
        is_floor_sqrt(n as int, root as int),
{
    let mut lo: u128 = 0;
    let mut hi: u128 = 0x1_0000_0000_0000_0000;
    assert(0x1_0000_0000_0000_0000int * 0x1_0000_0000_0000_0000int > u128::MAX) by (nonlinear_arith);
    while hi - lo > 1
        invariant
            lo < hi <= 0x1_0000_0000_0000_0000,
            lo * lo <= n,
            n < hi * hi,
        decreases hi - lo,
    {
        let mid: u128 = lo + (hi - lo) / 2;
        assert(mid * mid <= u128::MAX) by (nonlinear_arith)
            requires
                mid <= 0xFFFF_FFFF_FFFF_FFFF,
        ;
        if mid * mid <= n {
            lo = mid;
        } else {
            hi = mid;
        }
    }
    proof {
        assert(hi == lo + 1);
        lemma_floor_sqrt_unique(n as int, lo as int);
    }
    lo as u64
}

/// `floor(a * b / d)` with the product taken in 128 bits, where it cannot
/// overflow.
pub fn mul_div_wide(a: u64, b: u64, d: u128) -> (quotient: u128)
    requires
        d > 0,
    ensures
        quotient as int == mul_div_floor(a as int, b as int, d as int),
{
    assert(a * b <= u128::MAX) by (nonlinear_arith)
        requires
            a <= 0xFFFF_FFFF_FFFF_FFFF,
            b <= 0xFFFF_FFFF_FFFF_FFFF,
    ;
    (a as u128) * (b as u128) / d
}

/// `floor(a * b / d)` through a 128-bit product, so that only the quotient
/// has to fit in 64 bits.
///
/// `None` where `d` is zero or the quotient is too large.
pub fn mul_div(a: u64, b: u64, d: u64) -> (quotient: Option<u64>)
    ensures
        quotient.is_some() <==> d > 0 && mul_div_floor(a as int, b as int, d as int) <= u64::MAX,
        quotient.is_some() ==> quotient.unwrap() as int == mul_div_floor(
            a as int,
            b as int,
            d as int,
        ),
{
    if d == 0 {
        return None;
    }
    let wide: u128 = mul_div_wide(a, b, d as u128);
    if wide > u64::MAX as u128 {
        None
    } else {
        Some(wide as u64)
    }
}

/// A floored quotient times its divisor does not exceed the dividend, and
/// falls short of it by less than the divisor.
pub proof fn lemma_mul_div_floor_bounds(a: int, b: int, d: int)
    requires
        0 <= a,
        0 <= b,
        0 < d,
    ensures
        0 <= mul_div_floor(a, b, d),
        mul_div_floor(a, b, d) * d <= a * b,
        a * b < (mul_div_floor(a, b, d) + 1) * d,
{
    let n = a * b;
    assert(0 <= n) by (nonlinear_arith)
        requires
            n == a * b,
            0 <= a,
            0 <= b,
    ;
    assert(0 <= n / d && (n / d) * d <= n && n < (n / d + 1) * d) by (nonlinear_arith)
        requires
            0 <= n,
            0 < d,
    ;
}

/// Scaling by `d / d` changes nothing: `floor(a * d / d) == a`.
pub proof fn lemma_mul_div_floor_cancel(a: int, d: int)
    requires
        0 <= a,
        0 < d,
    ensures
        mul_div_floor(a, d, d) == a,
        mul_div_floor(d, a, d) == a,
{
    assert((a * d) / d == a && (d * a) / d == a) by (nonlinear_arith)
        requires
            0 <= a,
            0 < d,
    ;
}

/// A proportion `a / d` of `b` that is at most the whole is at most `b`, and
/// less than `b` where it is less than the whole.
pub proof fn lemma_mul_div_floor_at_most(a: int, b: int, d: int)
    requires
        0 <= a <= d,
        0 <= b,
        0 < d,
    ensures
        mul_div_floor(a, b, d) <= b,
        a < d && b > 0 ==> mul_div_floor(a, b, d) < b,
{
    lemma_mul_div_floor_bounds(a, b, d);
    let q = mul_div_floor(a, b, d);
    assert(q <= b && (a < d && b > 0 ==> q < b)) by (nonlinear_arith)
        requires
            q * d <= a * b,
            0 <= a <= d,
            0 <= b,
            0 < d,
            0 <= q,
    ;
}

} // verus!
