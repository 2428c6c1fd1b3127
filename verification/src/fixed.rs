//! Fixed-point arithmetic with six decimal places.
//!
//! Every price, amount, quantity, percentage, slope and correlation of the
//! engine is an `i64` that counts millionths: `1_500_000` stands for `1.5`.
//! Quotients are rounded toward zero, and a quotient whose divisor is zero
//! is zero, so that every formula of the engine is defined on every input.

use vstd::prelude::*;

verus! {

/// The number of raw units in one whole unit.
pub const SCALE: i64 = 1_000_000;

/// The quotient of `a` by `b` rounded toward zero; zero when `b` is zero.
pub open spec fn trunc_div(a: int, b: int) -> int {
    if b == 0 {
        0
    } else if a >= 0 && b > 0 {
        a / b
    } else if a >= 0 {
        -(a / (-b))
    } else if b > 0 {
        -((-a) / b)
    } else {
        (-a) / (-b)
    }
}

/// `r` is the integer part of the square root of `x`.
pub open spec fn is_sqrt_floor(x: int, r: int) -> bool {
    0 <= r && r * r <= x < (r + 1) * (r + 1)
}

/// The integer part of the square root of `x`, for `x >= 0`.
pub open spec fn sqrt_floor(x: int) -> int {
    choose|r: int| is_sqrt_floor(x, r)
}

/// `x` can be held as a fixed-point number.
pub open spec fn fits_i64(x: int) -> bool {
    i64::MIN <= x <= i64::MAX
}

/// `x` can be held in the 128 bits in which the statistics are computed.
pub open spec fn fits_i128(x: int) -> bool {
    i128::MIN <= x <= i128::MAX
}

/// At most one number is the integer square root of `x`.
pub proof fn lemma_sqrt_floor_unique(x: int, r1: int, r2: int)
    requires
        is_sqrt_floor(x, r1),
        is_sqrt_floor(x, r2),
    ensures
        r1 == r2,
{
    if r1 < r2 {
        assert((r1 + 1) * (r1 + 1) <= r2 * r2) by (nonlinear_arith)
            requires
                0 <= r1,
                r1 + 1 <= r2,
        ;
    }
    if r2 < r1 {
        assert((r2 + 1) * (r2 + 1) <= r1 * r1) by (nonlinear_arith)
            requires
                0 <= r2,
                r2 + 1 <= r1,
        ;
    }
}

/// Every number that is not negative has an integer square root.
pub proof fn lemma_sqrt_floor_exists(x: int)
    requires
        x >= 0,
    ensures
        is_sqrt_floor(x, sqrt_floor(x)),
    decreases x,
{
    if x == 0 {
        assert(is_sqrt_floor(0, 0));
    } else {
        lemma_sqrt_floor_exists(x - 1);
        let r = sqrt_floor(x - 1);
        if (r + 1) * (r + 1) <= x {
            assert((r + 1) * (r + 1) == x);
            assert(x < (r + 2) * (r + 2)) by (nonlinear_arith)
                requires
                    (r + 1) * (r + 1) == x,
                    r >= 0,
            ;
            assert(is_sqrt_floor(x, r + 1));
        } else {
            assert(is_sqrt_floor(x, r));
        }
    }
}

/// Whoever holds one integer square root of `x` holds `sqrt_floor(x)`.
pub proof fn lemma_sqrt_floor_is(x: int, r: int)
    requires
        is_sqrt_floor(x, r),
    ensures
        sqrt_floor(x) == r,
{
    lemma_sqrt_floor_unique(x, r, sqrt_floor(x));
}

/// A quotient is no larger in magnitude than the dividend, and has the sign
/// that the signs of dividend and divisor give it.
pub proof fn lemma_trunc_div_bound(a: int, b: int)
    ensures
        a >= 0 ==> -a <= trunc_div(a, b) <= a,
        a <= 0 ==> a <= trunc_div(a, b) <= -a,
        (a >= 0) == (b > 0) ==> trunc_div(a, b) >= 0,
        (a >= 0) != (b > 0) ==> trunc_div(a, b) <= 0,
{
    if b != 0 {
        if a >= 0 && b > 0 {
            lemma_div_bound(a, b);
        } else if a >= 0 {
            lemma_div_bound(a, -b);
        } else if b > 0 {
            lemma_div_bound(-a, b);
        } else {
            lemma_div_bound(-a, -b);
        }
    }
}

proof fn lemma_div_bound(a: int, b: int)
    by (nonlinear_arith)
    requires
        a >= 0,
        b > 0,
    ensures
        0 <= a / b <= a,
{
}

/// A multiple of `b` divided by `b` gives the factor back.
pub proof fn lemma_trunc_div_multiple(k: int, b: int)
    requires
        b != 0,
    ensures
        trunc_div(k * b, b) == k,
{
    let nk = if k >= 0 { k } else { -k };
    let nb = if b > 0 { b } else { -b };
    assert((nk * nb) / nb == nk) by (nonlinear_arith)
        requires
            nk >= 0,
            nb > 0,
    ;
    assert(nk * nb == (if (k >= 0) == (b > 0) { k * b } else { -(k * b) })) by (nonlinear_arith)
        requires
            nk == (if k >= 0 { k } else { -k }),
            nb == (if b > 0 { b } else { -b }),
    ;
    assert((k >= 0 && b > 0) || (k <= 0 && b < 0) ==> k * b >= 0) by (nonlinear_arith);
    assert((k >= 0 && b < 0) || (k <= 0 && b > 0) ==> k * b <= 0) by (nonlinear_arith);
    assert(k != 0 ==> k * b != 0) by (nonlinear_arith)
        requires
            b != 0,
    ;
}

/// A product is bounded by the product of the bounds of its factors.
pub proof fn lemma_product_bound(a: int, b: int, ma: int, mb: int)
    by (nonlinear_arith)
    requires
        -ma <= a <= ma,
        -mb <= b <= mb,
    ensures
        -(ma * mb) <= a * b <= ma * mb,
{
}

/// A total that is at most `count` times `limit` in magnitude divides by
/// `count` to at most `limit`.
pub proof fn lemma_quotient_bound(total: int, count: int, limit: int)
    requires
        count > 0,
        limit >= 0,
        -(count * limit) <= total <= count * limit,
    ensures
        -limit <= trunc_div(total, count) <= limit,
{
    if total >= 0 {
        assert(total / count <= limit) by (nonlinear_arith)
            requires
                count > 0,
                0 <= total <= count * limit,
        ;
        assert(total / count >= 0) by (nonlinear_arith)
            requires
                count > 0,
                0 <= total,
        ;
    } else {
        assert((-total) / count <= limit) by (nonlinear_arith)
            requires
                count > 0,
                0 <= -total <= count * limit,
        ;
        assert((-total) / count >= 0) by (nonlinear_arith)
            requires
                count > 0,
                0 <= -total,
        ;
    }
}

/// Divides rounding toward zero; a zero divisor gives zero.
pub fn div_trunc(a: i128, b: i128) -> (q: i128)
    requires
        a > i128::MIN,
        b > i128::MIN,
    ensures
        q == trunc_div(a as int, b as int),
{
    if b == 0 {
        return 0;
    }
    let na: i128 = if a >= 0 { a } else { -a };
    let nb: i128 = if b > 0 { b } else { -b };
    let nq: i128 = na / nb;
    proof {
        lemma_trunc_div_bound(na as int, nb as int);
    }
    if (a >= 0) == (b > 0) {
        nq
    } else {
        -nq
    }
}

/// The integer part of the square root.
pub fn isqrt(x: u128) -> (r: u128)
    ensures
        r == sqrt_floor(x as int),
        r <= u64::MAX,
{
    let mut lo: u128 = 0;
    let mut hi: u128 = 0x1_0000_0000_0000_0000;
    while hi - lo > 1
        invariant
            lo < hi <= 0x1_0000_0000_0000_0000,
            lo * lo <= x,
            hi == 0x1_0000_0000_0000_0000 || x < hi * hi,
        decreases hi - lo,
    {
        let mid: u128 = lo + (hi - lo) / 2;
        assert(mid * mid <= 0xffff_ffff_ffff_ffff * 0xffff_ffff_ffff_ffff) by (nonlinear_arith)
            requires
                mid <= 0xffff_ffff_ffff_ffff,
        ;
        if mid * mid <= x {
            lo = mid;
        } else {
            hi = mid;
        }
    }
    proof {
        assert(hi == lo + 1);
        if hi == 0x1_0000_0000_0000_0000 {
            assert(hi * hi == 0x1_0000_0000_0000_0000_0000_0000_0000_0000) by (nonlinear_arith)
                requires
                    hi == 0x1_0000_0000_0000_0000,
            ;
        }
        assert(is_sqrt_floor(x as int, lo as int));
        lemma_sqrt_floor_is(x as int, lo as int);
    }
    lo
}

} // verus!
