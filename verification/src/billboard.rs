//! Distance-based billboard scaling.
//!
//! Each visible point is drawn as an image whose on-screen scale is
//! `base / (tan(fov / 2) * distance)`, so the image shrinks in proportion
//! to its distance from the camera, matching perspective foreshortening.

use vstd::prelude::*;
use crate::fixed::{FP_ONE, iabs, quot, div_trunc, isqrt};
use crate::fixed::{lemma_quot_antitone, lemma_quot_mag_signed};
use crate::vec3::{Vec3, gnorm2, COORD_LIMIT};

verus! {

/// Distance of a camera-space point from the camera origin, on the
/// fixed-point scale: the integer square root of the squared norm of the
/// scaled components.
pub fn distance_from_camera(cam: &Vec3) -> (r: i64)
    requires
        iabs(cam@.x) <= 2 * COORD_LIMIT,
        iabs(cam@.y) <= 2 * COORD_LIMIT,
        iabs(cam@.z) <= 2 * COORD_LIMIT,
    ensures
        r >= 0,
        (r as int) * (r as int) <= gnorm2(cam@),
        (r as int + 1) * (r as int + 1) > gnorm2(cam@),
{
    let x = cam.x as i128;
    let y = cam.y as i128;
    let z = cam.z as i128;
    proof {
        assert(0 <= x * x <= 0x2000_0000_0000_0000 * (2 * 0x2000_0000_0000_0000) && 0 <= y * y
            <= 0x2000_0000_0000_0000 * (2 * 0x2000_0000_0000_0000) && 0 <= z * z
            <= 0x2000_0000_0000_0000 * (2 * 0x2000_0000_0000_0000)) by (nonlinear_arith)
            requires
                iabs(x as int) <= 0x2000_0000_0000_0000,
                iabs(y as int) <= 0x2000_0000_0000_0000,
                iabs(z as int) <= 0x2000_0000_0000_0000,
        ;
    }
    let n2: i128 = x * x + y * y + z * z;
    let s = isqrt(n2 as u128);
    proof {
        assert(s as int <= 0x7000_0000_0000_0000) by (nonlinear_arith)
            requires
                s as int * s as int <= n2 as int,
                n2 as int <= 3 * (0x2000_0000_0000_0000 * (2 * 0x2000_0000_0000_0000)),
        ;
    }
    s as i64
}

/// Billboard scale for a point at the given distance: the real ratio
/// `base / (tan_half_fov * distance)`, rounded toward zero onto the
/// fixed-point scale.
pub open spec fn gscale(base: int, tan: int, dist: int) -> int {
    quot(base * FP_ONE * FP_ONE, tan * dist)
}

pub fn billboard_scale(base: i64, tan_half_fov: i64, distance: i64) -> (r: i64)
    requires
        0 <= base < 0x8000_0000,
        0 < tan_half_fov <= 0x8000_0000,
        1 <= distance <= 0x7000_0000_0000_0000,
    ensures
        r == gscale(base as int, tan_half_fov as int, distance as int),
{
    let num: i128 = (base as i128) * 65536 * 65536;
    proof {
        assert(num == base as int * FP_ONE * FP_ONE);
        assert(1 <= (tan_half_fov as i128) * (distance as i128) <= 0x8000_0000
            * 0x7000_0000_0000_0000) by (nonlinear_arith)
            requires
                0 < tan_half_fov <= 0x8000_0000,
                1 <= distance <= 0x7000_0000_0000_0000,
        ;
    }
    let den: i128 = (tan_half_fov as i128) * (distance as i128);
    proof {
        assert(iabs(num as int) <= (num as int) * iabs(den as int)) by (nonlinear_arith)
            requires
                num >= 0,
                iabs(den as int) >= 1,
        ;
        lemma_quot_mag_signed(num as int, den as int, num as int);
    }
    let q = div_trunc(num, den);
    q as i64
}

/// For a fixed base and field of view the scale never grows as the
/// distance grows.
pub proof fn lemma_scale_antitone(base: int, tan: int, d1: int, d2: int)
    requires
        base >= 0,
        tan > 0,
        0 < d1 <= d2,
    ensures
        gscale(base, tan, d2) <= gscale(base, tan, d1),
{
    let num = base * FP_ONE * FP_ONE;
    assert(0 < tan * d1 <= tan * d2) by (nonlinear_arith)
        requires
            tan > 0,
            0 < d1 <= d2,
    ;
    assert(num >= 0) by (nonlinear_arith)
        requires
            base >= 0,
            num == base * 65536 * 65536,
    ;
    lemma_quot_antitone(num, tan * d1, tan * d2);
    assert(gscale(base, tan, d1) == quot(num, tan * d1));
    assert(gscale(base, tan, d2) == quot(num, tan * d2));
}

/// Strict decrease: when the distance at least doubles and the farther
/// scale still spans at least one fixed-point unit, the computed scale
/// strictly shrinks.  (For smaller gaps the two distances can round to
/// the same fixed-point scale: the decrease of the exact real ratio is
/// strict whenever `d1 < d2`, but the stored value moves only once the
/// gap crosses the resolution.)
pub proof fn lemma_scale_strictly_decreases(base: int, tan: int, d1: int, d2: int)
    requires
        base > 0,
        tan > 0,
        0 < d1,
        2 * d1 <= d2,
        base * FP_ONE * FP_ONE >= tan * d2,
    ensures
        gscale(base, tan, d2) < gscale(base, tan, d1),
{
    let num = base * FP_ONE * FP_ONE;
    let b1 = tan * d1;
    let b2 = tan * d2;
    assert(0 < b1 && 0 < b2 && 2 * b1 <= b2 && num >= b2) by (nonlinear_arith)
        requires
            tan > 0,
            0 < d1,
            2 * d1 <= d2,
            b1 == tan * d1,
            b2 == tan * d2,
            num >= b2,
            num == base * 65536 * 65536,
            base > 0,
    ;
    assert(num / b1 > num / b2) by (nonlinear_arith)
        requires
            0 < b1,
            0 < b2,
            2 * b1 <= b2,
            num >= b2,
    ;
    assert(gscale(base, tan, d1) == num / b1);
    assert(gscale(base, tan, d2) == num / b2);
}

} // verus!
