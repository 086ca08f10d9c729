//! Fixed-point scalar arithmetic.
//!
//! Every quantity of the viewer (coordinates, rotation components, camera
//! parameters, screen positions) is stored as an `i64` holding the value
//! scaled by `FP_ONE`, so a stored `v` stands for the real number
//! `v / FP_ONE`.  Products and quotients are computed exactly in `i128` and
//! rounded toward zero, and every function states the exact integer value of
//! its result.

use vstd::prelude::*;

verus! {

/// Scale of the fixed-point representation: a stored value `v` stands for
/// `v / FP_ONE` in world units.
pub const FP_ONE: i64 = 65536;

/// Magnitude of an integer.
pub open spec fn iabs(a: int) -> int {
    if a >= 0 {
        a
    } else {
        -a
    }
}

/// Quotient of `a` by `b`, rounded toward zero — the rounding that all the
/// executable fixed-point operations of this crate use.  Meaningful only for
/// `b != 0`.
pub open spec fn quot(a: int, b: int) -> int {
    if (a >= 0) == (b >= 0) {
        iabs(a) / iabs(b)
    } else {
        -(iabs(a) / iabs(b))
    }
}

/// Rounding toward zero never enlarges a magnitude: if `|a| <= m * b`
/// then `|quot(a, b)| <= m`.
pub proof fn lemma_quot_mag(a: int, b: int, m: int)
    requires
        b > 0,
        m >= 0,
        iabs(a) <= m * b,
    ensures
        iabs(quot(a, b)) <= m,
{
    let q = iabs(a) / b;
    assert(q <= m) by (nonlinear_arith)
        requires
            b > 0,
            m >= 0,
            iabs(a) >= 0,
            iabs(a) <= m * b,
            q == iabs(a) / b,
    ;
    assert(iabs(quot(a, b)) == q);
}

/// A quotient of magnitude at least one: if `|a| >= b` the truncated
/// quotient cannot collapse to zero.
pub proof fn lemma_quot_lower(a: int, b: int)
    requires
        b > 0,
        iabs(a) >= b,
    ensures
        iabs(quot(a, b)) >= 1,
        a > 0 ==> quot(a, b) >= 1,
    decreases b,
{
    assert(iabs(a) / b >= 1) by (nonlinear_arith)
        requires
            b > 0,
            iabs(a) >= b,
    ;
}

/// For a fixed nonnegative numerator the truncated quotient never grows as
/// the divisor grows.
pub proof fn lemma_quot_antitone(n: int, b1: int, b2: int)
    requires
        n >= 0,
        0 < b1 <= b2,
    ensures
        quot(n, b2) <= quot(n, b1),
{
    assert(n / b2 <= n / b1) by (nonlinear_arith)
        requires
            n >= 0,
            0 < b1 <= b2,
    ;
}

/// Truncation shrinks squares: the square of the truncated quotient, put
/// back on the common scale, is at most the square of the numerator.
pub proof fn lemma_quot_square(a: int, b: int)
    requires
        b > 0,
    ensures
        quot(a, b) * quot(a, b) * b * b <= a * a,
{
    let m = iabs(a);
    let q = m / b;
    assert(0 <= q * b <= m) by (nonlinear_arith)
        requires
            b > 0,
            m >= 0,
            q == m / b,
    ;
    assert(q * b * (q * b) <= m * m) by (nonlinear_arith)
        requires
            0 <= q * b <= m,
    ;
    assert(quot(a, b) * quot(a, b) == q * q) by (nonlinear_arith)
        requires
            q == iabs(quot(a, b)),
            q >= 0,
    ;
    assert(q * q * b * b == q * b * (q * b)) by (nonlinear_arith);
    assert(a * a == m * m) by (nonlinear_arith)
        requires
            m == iabs(a),
    ;
}

/// Rounding toward zero never enlarges a magnitude, for either sign of
/// the divisor.
pub proof fn lemma_quot_mag_signed(a: int, b: int, m: int)
    requires
        b != 0,
        m >= 0,
        iabs(a) <= m * iabs(b),
    ensures
        iabs(quot(a, b)) <= m,
{
    lemma_quot_mag(iabs(a), iabs(b), m);
    assert(iabs(quot(a, b)) == iabs(a) / iabs(b));
    assert(iabs(quot(iabs(a), iabs(b))) == iabs(a) / iabs(b));
}

/// Magnitude of an `i128`, as executable code.
pub fn abs128(a: i128) -> (r: i128)
    requires
        a > i128::MIN,
    ensures
        r == iabs(a as int),
{
    if a >= 0 {
        a
    } else {
        -a
    }
}

/// Quotient of `a` by a nonzero `b`, rounded toward zero, computed through
/// nonnegative magnitudes so that the result is exactly `quot(a, b)`.
pub fn div_trunc(a: i128, b: i128) -> (r: i128)
    requires
        b != 0,
        a > i128::MIN,
        b > i128::MIN,
    ensures
        r == quot(a as int, b as int),
        iabs(r as int) <= iabs(a as int),
{
    proof {
        assert(iabs(a as int) <= iabs(a as int) * iabs(b as int)) by (nonlinear_arith)
            requires
                iabs(b as int) >= 1,
                iabs(a as int) >= 0,
        ;
        lemma_quot_mag_signed(a as int, b as int, iabs(a as int));
    }
    let ma: u128 = if a >= 0 {
        a as u128
    } else {
        (-a) as u128
    };
    let mb: u128 = if b >= 0 {
        b as u128
    } else {
        (-b) as u128
    };
    let q: u128 = ma / mb;
    assert(q <= ma);
    if (a >= 0) == (b >= 0) {
        q as i128
    } else {
        -(q as i128)
    }
}

/// Fixed-point product: the real product of the two operands, rounded
/// toward zero onto the `FP_ONE` scale.
pub fn fp_mul(a: i64, b: i64) -> (r: i64)
    requires
        iabs(a as int * b as int) <= 0x7fff_ffff_ffff_ffff * (FP_ONE as int),
    ensures
        r == quot(a as int * b as int, FP_ONE as int),
{
    let p: i128 = (a as i128) * (b as i128);
    let q: i128 = div_trunc(p, FP_ONE as i128);
    proof {
        lemma_quot_mag(p as int, FP_ONE as int, 0x7fff_ffff_ffff_ffff);
    }
    q as i64
}

/// Fixed-point quotient: the real ratio `a / b` for positive `b`, rounded
/// toward zero onto the `FP_ONE` scale.
pub fn fp_div(a: i64, b: i64) -> (r: i64)
    requires
        b > 0,
        iabs(a as int * FP_ONE as int) <= 0x7fff_ffff_ffff_ffff * (b as int),
    ensures
        r == quot(a as int * FP_ONE as int, b as int),
{
    let p: i128 = (a as i128) * (FP_ONE as i128);
    let q: i128 = div_trunc(p, b as i128);
    proof {
        lemma_quot_mag(p as int, b as int, 0x7fff_ffff_ffff_ffff);
    }
    q as i64
}

/// Largest integer whose square does not exceed `n`.
pub fn isqrt(n: u128) -> (r: u64)
    ensures
        r as int * r as int <= n,
        (r as int + 1) * (r as int + 1) > n,
{
    let mut lo: u128 = 0;
    let mut hi: u128 = 0x1_0000_0000_0000_0000;
    proof {
        assert(hi * hi > n) by (nonlinear_arith)
            requires
                hi == 0x1_0000_0000_0000_0000u128,
                n <= u128::MAX,
        ;
    }
    while lo + 1 < hi
        invariant
            lo < hi,
            hi <= 0x1_0000_0000_0000_0000,
            lo * lo <= n,
            hi * hi > n,
        decreases hi - lo,
    {
        let mid: u128 = lo + (hi - lo) / 2;
        assert(lo < mid < hi);
        assert(mid * mid < 0x1_0000_0000_0000_0000_0000_0000_0000_0000) by (nonlinear_arith)
            requires
                mid < 0x1_0000_0000_0000_0000u128,
        ;
        if mid * mid <= n {
            lo = mid;
        } else {
            hi = mid;
        }
    }
    assert(lo + 1 == hi);
    lo as u64
}

} // verus!
