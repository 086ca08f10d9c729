//! Fixed-point rotation quaternions.
//!
//! A rotation is stored as a quaternion whose components are fixed-point
//! values on the `FP_ONE` scale; a unit quaternion therefore has squared
//! norm at most `FP_ONE * FP_ONE`.  The central fact proved here is that
//! this bound survives composition: the quaternion product of two
//! rotations, computed with truncating fixed-point arithmetic, is again
//! within the unit bound, and rotating a vector never enlarges its norm.

use vstd::prelude::*;
use crate::fixed::{FP_ONE, iabs, quot, div_trunc};
use crate::fixed::lemma_quot_square;
use crate::vec3::{GVec3, Vec3, gnorm2, lemma_comp_le_norm, COORD_LIMIT};

verus! {

/// Mathematical model of a fixed-point quaternion.
pub ghost struct GQuat {
    pub w: int,
    pub x: int,
    pub y: int,
    pub z: int,
}

/// A rotation quaternion; each component is a fixed-point value.
#[derive(Clone, Copy, PartialEq, Eq, Structural, Debug)]
pub struct Quat {
    pub w: i64,
    pub x: i64,
    pub y: i64,
    pub z: i64,
}

impl View for Quat {
    type V = GQuat;

    open spec fn view(&self) -> GQuat {
        GQuat { w: self.w as int, x: self.x as int, y: self.y as int, z: self.z as int }
    }
}

/// Squared norm of a quaternion's scaled components.
pub open spec fn gqnorm2(q: GQuat) -> int {
    q.w * q.w + q.x * q.x + q.y * q.y + q.z * q.z
}

/// A well-formed rotation: a quaternion of norm at most one, i.e. whose
/// scaled squared norm stays within the unit bound.
pub open spec fn is_rotation(q: GQuat) -> bool {
    gqnorm2(q) <= FP_ONE * FP_ONE
}

/// The identity rotation.
pub open spec fn gquat_identity() -> GQuat {
    GQuat { w: FP_ONE as int, x: 0, y: 0, z: 0 }
}

/// Conjugate (inverse for unit quaternions).
pub open spec fn gquat_conj(q: GQuat) -> GQuat {
    GQuat { w: q.w, x: -q.x, y: -q.y, z: -q.z }
}

/// Exact numerators of the Hamilton product, before rescaling.
pub open spec fn gqm_w(a: GQuat, b: GQuat) -> int {
    a.w * b.w - a.x * b.x - a.y * b.y - a.z * b.z
}

pub open spec fn gqm_x(a: GQuat, b: GQuat) -> int {
    a.w * b.x + a.x * b.w + a.y * b.z - a.z * b.y
}

pub open spec fn gqm_y(a: GQuat, b: GQuat) -> int {
    a.w * b.y - a.x * b.z + a.y * b.w + a.z * b.x
}

pub open spec fn gqm_z(a: GQuat, b: GQuat) -> int {
    a.w * b.z + a.x * b.y - a.y * b.x + a.z * b.w
}

/// Hamilton product on the fixed-point scale: each exact numerator is
/// rounded toward zero onto the `FP_ONE` scale.
pub open spec fn gquat_mul(a: GQuat, b: GQuat) -> GQuat {
    GQuat {
        w: quot(gqm_w(a, b), FP_ONE as int),
        x: quot(gqm_x(a, b), FP_ONE as int),
        y: quot(gqm_y(a, b), FP_ONE as int),
        z: quot(gqm_z(a, b), FP_ONE as int),
    }
}

/// Euler's four-square identity: the exact Hamilton product multiplies
/// squared norms.  The proof expands both sides over the sixteen pairwise
/// products and cancels the cross terms pair by pair.
pub proof fn lemma_four_square(a: GQuat, b: GQuat)
    ensures
        gqm_w(a, b) * gqm_w(a, b) + gqm_x(a, b) * gqm_x(a, b) + gqm_y(a, b) * gqm_y(a, b)
            + gqm_z(a, b) * gqm_z(a, b) == gqnorm2(a) * gqnorm2(b),
{
    let ca = a.w * b.w;
    let cb = a.x * b.x;
    let cc = a.y * b.y;
    let cd = a.z * b.z;
    let ce = a.w * b.x;
    let cf = a.x * b.w;
    let cg = a.y * b.z;
    let ch = a.z * b.y;
    let ci = a.w * b.y;
    let cj = a.x * b.z;
    let ck = a.y * b.w;
    let cl = a.z * b.x;
    let cm = a.w * b.z;
    let cn = a.x * b.y;
    let co = a.y * b.x;
    let cp = a.z * b.w;
    let pw = gqm_w(a, b);
    let px = gqm_x(a, b);
    let py = gqm_y(a, b);
    let pz = gqm_z(a, b);
    assert(pw == ca - cb - cc - cd);
    assert(px == ce + cf + cg - ch);
    assert(py == ci - cj + ck + cl);
    assert(pz == cm + cn - co + cp);
    assert(pw * pw == ca * ca + cb * cb + cc * cc + cd * cd - 2 * (ca * cb) - 2 * (ca * cc) - 2
        * (ca * cd) + 2 * (cb * cc) + 2 * (cb * cd) + 2 * (cc * cd)) by (nonlinear_arith)
        requires
            pw == ca - cb - cc - cd,
    ;
    assert(px * px == ce * ce + cf * cf + cg * cg + ch * ch + 2 * (ce * cf) + 2 * (ce * cg) - 2
        * (ce * ch) + 2 * (cf * cg) - 2 * (cf * ch) - 2 * (cg * ch)) by (nonlinear_arith)
        requires
            px == ce + cf + cg - ch,
    ;
    assert(py * py == ci * ci + cj * cj + ck * ck + cl * cl - 2 * (ci * cj) + 2 * (ci * ck) + 2
        * (ci * cl) - 2 * (cj * ck) - 2 * (cj * cl) + 2 * (ck * cl)) by (nonlinear_arith)
        requires
            py == ci - cj + ck + cl,
    ;
    assert(pz * pz == cm * cm + cn * cn + co * co + cp * cp + 2 * (cm * cn) - 2 * (cm * co) + 2
        * (cm * cp) - 2 * (cn * co) + 2 * (cn * cp) - 2 * (co * cp)) by (nonlinear_arith)
        requires
            pz == cm + cn - co + cp,
    ;
    let na = gqnorm2(a);
    let nb = gqnorm2(b);
    let u0 = a.w * a.w;
    let u1 = a.x * a.x;
    let u2 = a.y * a.y;
    let u3 = a.z * a.z;
    let s0 = b.w * b.w;
    let s1 = b.x * b.x;
    let s2 = b.y * b.y;
    let s3 = b.z * b.z;
    assert(na * nb == u0 * nb + u1 * nb + u2 * nb + u3 * nb) by (nonlinear_arith)
        requires
            na == u0 + u1 + u2 + u3,
    ;
    assert(u0 * nb == u0 * s0 + u0 * s1 + u0 * s2 + u0 * s3 && u1 * nb == u1 * s0 + u1 * s1 + u1
        * s2 + u1 * s3 && u2 * nb == u2 * s0 + u2 * s1 + u2 * s2 + u2 * s3 && u3 * nb == u3 * s0
        + u3 * s1 + u3 * s2 + u3 * s3) by (nonlinear_arith)
        requires
            nb == s0 + s1 + s2 + s3,
    ;
    assert(u0 * s0 == ca * ca && u0 * s1 == ce * ce && u0 * s2 == ci * ci && u0 * s3 == cm * cm)
        by (nonlinear_arith)
        requires
            u0 == a.w * a.w && s0 == b.w * b.w && s1 == b.x * b.x && s2 == b.y * b.y && s3 == b.z
                * b.z,
            ca == a.w * b.w && ce == a.w * b.x && ci == a.w * b.y && cm == a.w * b.z,
    ;
    assert(u1 * s0 == cf * cf && u1 * s1 == cb * cb && u1 * s2 == cn * cn && u1 * s3 == cj * cj)
        by (nonlinear_arith)
        requires
            u1 == a.x * a.x && s0 == b.w * b.w && s1 == b.x * b.x && s2 == b.y * b.y && s3 == b.z
                * b.z,
            cf == a.x * b.w && cb == a.x * b.x && cn == a.x * b.y && cj == a.x * b.z,
    ;
    assert(u2 * s0 == ck * ck && u2 * s1 == co * co && u2 * s2 == cc * cc && u2 * s3 == cg * cg)
        by (nonlinear_arith)
        requires
            u2 == a.y * a.y && s0 == b.w * b.w && s1 == b.x * b.x && s2 == b.y * b.y && s3 == b.z
                * b.z,
            ck == a.y * b.w && co == a.y * b.x && cc == a.y * b.y && cg == a.y * b.z,
    ;
    assert(u3 * s0 == cp * cp && u3 * s1 == cl * cl && u3 * s2 == ch * ch && u3 * s3 == cd * cd)
        by (nonlinear_arith)
        requires
            u3 == a.z * a.z && s0 == b.w * b.w && s1 == b.x * b.x && s2 == b.y * b.y && s3 == b.z
                * b.z,
            cp == a.z * b.w && cl == a.z * b.x && ch == a.z * b.y && cd == a.z * b.z,
    ;
    assert(ca * cb == ce * cf && ca * cc == ci * ck && ca * cd == cm * cp) by (nonlinear_arith)
        requires
            ca == a.w * b.w && cb == a.x * b.x && cc == a.y * b.y && cd == a.z * b.z,
            ce == a.w * b.x && cf == a.x * b.w && ci == a.w * b.y && ck == a.y * b.w,
            cm == a.w * b.z && cp == a.z * b.w,
    ;
    assert(cb * cc == cn * co && cb * cd == cj * cl && cc * cd == cg * ch) by (nonlinear_arith)
        requires
            cb == a.x * b.x && cc == a.y * b.y && cd == a.z * b.z,
            cn == a.x * b.y && co == a.y * b.x && cj == a.x * b.z,
            cl == a.z * b.x && cg == a.y * b.z && ch == a.z * b.y,
    ;
    assert(ce * cg == cm * co && ce * ch == ci * cl && cf * cg == cj * ck) by (nonlinear_arith)
        requires
            ce == a.w * b.x && cg == a.y * b.z && cm == a.w * b.z && co == a.y * b.x,
            ch == a.z * b.y && ci == a.w * b.y && cl == a.z * b.x,
            cf == a.x * b.w && cj == a.x * b.z && ck == a.y * b.w,
    ;
    assert(cf * ch == cn * cp && ck * cl == co * cp && ci * cj == cm * cn) by (nonlinear_arith)
        requires
            cf == a.x * b.w && ch == a.z * b.y && cn == a.x * b.y && cp == a.z * b.w,
            ck == a.y * b.w && cl == a.z * b.x && co == a.y * b.x,
            ci == a.w * b.y && cj == a.x * b.z && cm == a.w * b.z,
    ;
    assert(pw * pw + px * px + py * py + pz * pz == na * nb);
}

/// The rescaled Hamilton product shrinks the product of the norms: the
/// truncation toward zero can only lose magnitude.
pub proof fn lemma_mul_norm(a: GQuat, b: GQuat)
    ensures
        gqnorm2(gquat_mul(a, b)) * (FP_ONE * FP_ONE) <= gqnorm2(a) * gqnorm2(b),
{
    let f = FP_ONE as int;
    lemma_four_square(a, b);
    lemma_quot_square(gqm_w(a, b), f);
    lemma_quot_square(gqm_x(a, b), f);
    lemma_quot_square(gqm_y(a, b), f);
    lemma_quot_square(gqm_z(a, b), f);
    let r = gquat_mul(a, b);
    assert(gqnorm2(r) * (f * f) == r.w * r.w * f * f + r.x * r.x * f * f + r.y * r.y * f * f
        + r.z * r.z * f * f) by (nonlinear_arith);
}

/// Composition of rotations is a rotation: the unit bound survives the
/// fixed-point product.
pub proof fn lemma_mul_is_rotation(a: GQuat, b: GQuat)
    requires
        is_rotation(a),
        is_rotation(b),
    ensures
        is_rotation(gquat_mul(a, b)),
{
    let f = FP_ONE as int;
    lemma_mul_norm(a, b);
    assert(gqnorm2(a) >= 0 && gqnorm2(b) >= 0) by (nonlinear_arith);
    assert(gqnorm2(a) * gqnorm2(b) <= (f * f) * (f * f)) by (nonlinear_arith)
        requires
            0 <= gqnorm2(a) <= f * f,
            0 <= gqnorm2(b) <= f * f,
    ;
    assert(gqnorm2(gquat_mul(a, b)) <= f * f) by (nonlinear_arith)
        requires
            f * f > 0,
            gqnorm2(gquat_mul(a, b)) * (f * f) <= (f * f) * (f * f),
    ;
}

/// Every component of a quaternion is bounded by its norm.
pub proof fn lemma_qcomp_le_norm(q: GQuat, m: int)
    requires
        m >= 0,
        gqnorm2(q) <= m * m,
    ensures
        iabs(q.w) <= m,
        iabs(q.x) <= m,
        iabs(q.y) <= m,
        iabs(q.z) <= m,
{
    assert(iabs(q.w) <= m && iabs(q.x) <= m && iabs(q.y) <= m && iabs(q.z) <= m)
        by (nonlinear_arith)
        requires
            m >= 0,
            q.w * q.w + q.x * q.x + q.y * q.y + q.z * q.z <= m * m,
    ;
}

/// A vector as a pure quaternion.
pub open spec fn gpure(v: GVec3) -> GQuat {
    GQuat { w: 0, x: v.x, y: v.y, z: v.z }
}

/// The vector part of a quaternion.
pub open spec fn gvec_of(q: GQuat) -> GVec3 {
    GVec3 { x: q.x, y: q.y, z: q.z }
}

/// Rotation of a vector by the sandwich product `q * v * conj(q)`, on the
/// fixed-point scale.
pub open spec fn grot_vec(q: GQuat, v: GVec3) -> GVec3 {
    gvec_of(gquat_mul(gquat_mul(q, gpure(v)), gquat_conj(q)))
}

/// Conjugation keeps the norm.
pub proof fn lemma_conj_norm(q: GQuat)
    ensures
        gqnorm2(gquat_conj(q)) == gqnorm2(q),
{
    assert((-q.x) * (-q.x) == q.x * q.x && (-q.y) * (-q.y) == q.y * q.y && (-q.z) * (-q.z) == q.z
        * q.z) by (nonlinear_arith);
}

/// Rotating by a well-formed rotation never enlarges a vector's norm, even
/// with the truncation of the fixed-point products.
pub proof fn lemma_rot_vec_norm(q: GQuat, v: GVec3)
    requires
        is_rotation(q),
    ensures
        gnorm2(grot_vec(q, v)) <= gnorm2(v),
        gqnorm2(gquat_mul(q, gpure(v))) <= gnorm2(v),
        gqnorm2(gquat_mul(gquat_mul(q, gpure(v)), gquat_conj(q))) <= gnorm2(v),
{
    let f = FP_ONE as int;
    let p = gpure(v);
    let h = gquat_mul(q, p);
    let r = gquat_mul(h, gquat_conj(q));
    assert(p.w == 0 && p.x == v.x && p.y == v.y && p.z == v.z);
    assert(p.w * p.w == 0) by (nonlinear_arith)
        requires
            p.w == 0,
    ;
    assert(gqnorm2(p) == gnorm2(v));
    lemma_mul_norm(q, p);
    assert(gqnorm2(p) >= 0 && gqnorm2(h) >= 0 && gqnorm2(r) >= 0 && gnorm2(v) >= 0 && gqnorm2(q)
        >= 0) by (nonlinear_arith);
    assert(gqnorm2(q) * gqnorm2(p) <= (f * f) * gnorm2(v)) by (nonlinear_arith)
        requires
            0 <= gqnorm2(q) <= f * f,
            gqnorm2(p) == gnorm2(v),
            gnorm2(v) >= 0,
    ;
    assert(gqnorm2(h) <= gnorm2(v)) by (nonlinear_arith)
        requires
            f * f > 0,
            gqnorm2(h) * (f * f) <= (f * f) * gnorm2(v),
    ;
    lemma_mul_norm(h, gquat_conj(q));
    lemma_conj_norm(q);
    assert(gqnorm2(h) * gqnorm2(gquat_conj(q)) <= gnorm2(v) * (f * f)) by (nonlinear_arith)
        requires
            0 <= gqnorm2(gquat_conj(q)) <= f * f,
            0 <= gqnorm2(h) <= gnorm2(v),
    ;
    assert(gqnorm2(r) <= gnorm2(v)) by (nonlinear_arith)
        requires
            f * f > 0,
            gqnorm2(r) * (f * f) <= gnorm2(v) * (f * f),
    ;
    assert(r.w * r.w >= 0 && gnorm2(gvec_of(r)) == r.x * r.x + r.y * r.y + r.z * r.z)
        by (nonlinear_arith);
}

impl Quat {
    /// The identity rotation.
    pub fn identity() -> (r: Quat)
        ensures
            r@ == gquat_identity(),
            is_rotation(r@),
    {
        Quat { w: FP_ONE, x: 0, y: 0, z: 0 }
    }

    /// A rotation about the x axis given the cosine and sine of half the
    /// angle, both on the fixed-point scale.
    pub fn about_x(cos_half: i64, sin_half: i64) -> (r: Quat)
        requires
            cos_half * cos_half + sin_half * sin_half <= FP_ONE * FP_ONE,
        ensures
            r@ == (GQuat { w: cos_half as int, x: sin_half as int, y: 0, z: 0 }),
            is_rotation(r@),
    {
        Quat { w: cos_half, x: sin_half, y: 0, z: 0 }
    }

    /// A rotation about the y axis given the cosine and sine of half the
    /// angle.
    pub fn about_y(cos_half: i64, sin_half: i64) -> (r: Quat)
        requires
            cos_half * cos_half + sin_half * sin_half <= FP_ONE * FP_ONE,
        ensures
            r@ == (GQuat { w: cos_half as int, x: 0, y: sin_half as int, z: 0 }),
            is_rotation(r@),
    {
        Quat { w: cos_half, x: 0, y: sin_half, z: 0 }
    }

    /// A rotation about the z axis given the cosine and sine of half the
    /// angle.
    pub fn about_z(cos_half: i64, sin_half: i64) -> (r: Quat)
        requires
            cos_half * cos_half + sin_half * sin_half <= FP_ONE * FP_ONE,
        ensures
            r@ == (GQuat { w: cos_half as int, x: 0, y: 0, z: sin_half as int }),
            is_rotation(r@),
    {
        Quat { w: cos_half, x: 0, y: 0, z: sin_half }
    }

    /// Hamilton product of two rotations, on the fixed-point scale.
    pub fn mul(&self, o: &Quat) -> (r: Quat)
        requires
            is_rotation(self@),
            is_rotation(o@),
        ensures
            r@ == gquat_mul(self@, o@),
            is_rotation(r@),
    {
        proof {
            lemma_qcomp_le_norm(self@, FP_ONE as int);
            lemma_qcomp_le_norm(o@, FP_ONE as int);
            lemma_mul_is_rotation(self@, o@);
            lemma_qcomp_le_norm(gquat_mul(self@, o@), FP_ONE as int);
        }
        let f = FP_ONE as i128;
        let (aw, ax, ay, az) = (self.w as i128, self.x as i128, self.y as i128, self.z as i128);
        let (bw, bx, by, bz) = (o.w as i128, o.x as i128, o.y as i128, o.z as i128);
        proof {
            assert(iabs(aw * bw) <= 0x1_0000_0000 && iabs(ax * bx) <= 0x1_0000_0000
                && iabs(ay * by) <= 0x1_0000_0000 && iabs(az * bz) <= 0x1_0000_0000
                && iabs(aw * bx) <= 0x1_0000_0000 && iabs(ax * bw) <= 0x1_0000_0000
                && iabs(ay * bz) <= 0x1_0000_0000 && iabs(az * by) <= 0x1_0000_0000
                && iabs(aw * by) <= 0x1_0000_0000 && iabs(ax * bz) <= 0x1_0000_0000
                && iabs(ay * bw) <= 0x1_0000_0000 && iabs(az * bx) <= 0x1_0000_0000
                && iabs(aw * bz) <= 0x1_0000_0000 && iabs(ax * by) <= 0x1_0000_0000
                && iabs(ay * bx) <= 0x1_0000_0000 && iabs(az * bw) <= 0x1_0000_0000)
                by (nonlinear_arith)
                requires
                    iabs(aw as int) <= 0x10000 && iabs(ax as int) <= 0x10000
                        && iabs(ay as int) <= 0x10000 && iabs(az as int) <= 0x10000,
                    iabs(bw as int) <= 0x10000 && iabs(bx as int) <= 0x10000
                        && iabs(by as int) <= 0x10000 && iabs(bz as int) <= 0x10000,
            ;
        }
        let w = div_trunc(aw * bw - ax * bx - ay * by - az * bz, f);
        let x = div_trunc(aw * bx + ax * bw + ay * bz - az * by, f);
        let y = div_trunc(aw * by - ax * bz + ay * bw + az * bx, f);
        let z = div_trunc(aw * bz + ax * by - ay * bx + az * bw, f);
        Quat { w: w as i64, x: x as i64, y: y as i64, z: z as i64 }
    }

    /// Rotates a vector by this rotation (the sandwich product), on the
    /// fixed-point scale.  The norm of the vector never grows.
    pub fn rotate(&self, v: &Vec3) -> (r: Vec3)
        requires
            is_rotation(self@),
            gnorm2(v@) <= COORD_LIMIT * COORD_LIMIT,
        ensures
            r@ == grot_vec(self@, v@),
            gnorm2(r@) <= gnorm2(v@),
    {
        let ghost p = gpure(v@);
        let ghost hq = gquat_mul(self@, p);
        let ghost rq = gquat_mul(hq, gquat_conj(self@));
        proof {
            lemma_qcomp_le_norm(self@, FP_ONE as int);
            assert(gnorm2(v@) >= 0) by (nonlinear_arith);
            lemma_comp_le_norm(v@, COORD_LIMIT as int);
            lemma_rot_vec_norm(self@, v@);
            lemma_qcomp_le_norm(hq, COORD_LIMIT as int);
            lemma_qcomp_le_norm(rq, COORD_LIMIT as int);
        }
        let f = FP_ONE as i128;
        let (qw, qx, qy, qz) = (self.w as i128, self.x as i128, self.y as i128, self.z as i128);
        let (vx, vy, vz) = (v.x as i128, v.y as i128, v.z as i128);
        proof {
            lemma_prod_bounds(qw as int, qx as int, qy as int, qz as int, vx as int, vy as int,
                vz as int, 0);
        }
        let hw = div_trunc(qw * 0 - qx * vx - qy * vy - qz * vz, f);
        let hx = div_trunc(qw * vx + qx * 0 + qy * vz - qz * vy, f);
        let hy = div_trunc(qw * vy - qx * vz + qy * 0 + qz * vx, f);
        let hz = div_trunc(qw * vz + qx * vy - qy * vx + qz * 0, f);
        assert(hw == hq.w && hx == hq.x && hy == hq.y && hz == hq.z);
        let cqx = -qx;
        let cqy = -qy;
        let cqz = -qz;
        proof {
            lemma_prod_bounds(hw as int, hx as int, hy as int, hz as int, qw as int, cqx as int,
                cqy as int, cqz as int);
        }
        let x = div_trunc(hw * cqx + hx * qw + hy * cqz - hz * cqy, f);
        let y = div_trunc(hw * cqy - hx * cqz + hy * qw + hz * cqx, f);
        let z = div_trunc(hw * cqz + hx * cqy - hy * cqx + hz * qw, f);
        assert(x == rq.x && y == rq.y && z == rq.z);
        Vec3 { x: x as i64, y: y as i64, z: z as i64 }
    }
}

/// Every pairwise product of two lists of components within the
/// coordinate limit stays far inside the `i128` range.
proof fn lemma_prod_bounds(a0: int, a1: int, a2: int, a3: int, b0: int, b1: int, b2: int, b3: int)
    requires
        iabs(a0) <= COORD_LIMIT,
        iabs(a1) <= COORD_LIMIT,
        iabs(a2) <= COORD_LIMIT,
        iabs(a3) <= COORD_LIMIT,
        iabs(b0) <= COORD_LIMIT,
        iabs(b1) <= COORD_LIMIT,
        iabs(b2) <= COORD_LIMIT,
        iabs(b3) <= COORD_LIMIT,
    ensures
        iabs(a0 * b0) <= COORD_LIMIT * COORD_LIMIT,
        iabs(a0 * b1) <= COORD_LIMIT * COORD_LIMIT,
        iabs(a0 * b2) <= COORD_LIMIT * COORD_LIMIT,
        iabs(a0 * b3) <= COORD_LIMIT * COORD_LIMIT,
        iabs(a1 * b0) <= COORD_LIMIT * COORD_LIMIT,
        iabs(a1 * b1) <= COORD_LIMIT * COORD_LIMIT,
        iabs(a1 * b2) <= COORD_LIMIT * COORD_LIMIT,
        iabs(a1 * b3) <= COORD_LIMIT * COORD_LIMIT,
        iabs(a2 * b0) <= COORD_LIMIT * COORD_LIMIT,
        iabs(a2 * b1) <= COORD_LIMIT * COORD_LIMIT,
        iabs(a2 * b2) <= COORD_LIMIT * COORD_LIMIT,
        iabs(a2 * b3) <= COORD_LIMIT * COORD_LIMIT,
        iabs(a3 * b0) <= COORD_LIMIT * COORD_LIMIT,
        iabs(a3 * b1) <= COORD_LIMIT * COORD_LIMIT,
        iabs(a3 * b2) <= COORD_LIMIT * COORD_LIMIT,
        iabs(a3 * b3) <= COORD_LIMIT * COORD_LIMIT,
{
    assert(iabs(a0 * b0) <= COORD_LIMIT * COORD_LIMIT && iabs(a0 * b1) <= COORD_LIMIT * COORD_LIMIT && iabs(a0 * b2) <= COORD_LIMIT * COORD_LIMIT && iabs(a0 * b3) <= COORD_LIMIT * COORD_LIMIT && iabs(a1 * b0) <= COORD_LIMIT * COORD_LIMIT && iabs(a1 * b1) <= COORD_LIMIT * COORD_LIMIT && iabs(a1 * b2) <= COORD_LIMIT * COORD_LIMIT && iabs(a1 * b3) <= COORD_LIMIT * COORD_LIMIT && iabs(a2 * b0) <= COORD_LIMIT * COORD_LIMIT && iabs(a2 * b1) <= COORD_LIMIT * COORD_LIMIT && iabs(a2 * b2) <= COORD_LIMIT * COORD_LIMIT && iabs(a2 * b3) <= COORD_LIMIT * COORD_LIMIT && iabs(a3 * b0) <= COORD_LIMIT * COORD_LIMIT && iabs(a3 * b1) <= COORD_LIMIT * COORD_LIMIT && iabs(a3 * b2) <= COORD_LIMIT * COORD_LIMIT && iabs(a3 * b3) <= COORD_LIMIT * COORD_LIMIT) by (nonlinear_arith)
        requires
            iabs(a0) <= COORD_LIMIT,
            iabs(a1) <= COORD_LIMIT,
            iabs(a2) <= COORD_LIMIT,
            iabs(a3) <= COORD_LIMIT,
            iabs(b0) <= COORD_LIMIT,
            iabs(b1) <= COORD_LIMIT,
            iabs(b2) <= COORD_LIMIT,
            iabs(b3) <= COORD_LIMIT,
    ;
}

} // verus!
