//! The camera's rigid-body pose.
//!
//! A pose is a rotation followed by a translation, mapping world
//! coordinates to camera coordinates.  Movement commands compose an
//! incremental transform on the left, so they act in the camera's local
//! frame, as a first-person camera expects.

use vstd::prelude::*;
use crate::fixed::{FP_ONE, iabs};
use crate::vec3::{GVec3, Vec3, gvec_add, gnorm2, lemma_comp_le_norm, COORD_LIMIT};
use crate::quat::{GQuat, Quat, gquat_identity, gquat_mul, grot_vec, is_rotation};
use crate::quat::{lemma_mul_is_rotation, lemma_rot_vec_norm};

verus! {

/// Mathematical model of a camera pose.
pub ghost struct GPose {
    pub rot: GQuat,
    pub trans: GVec3,
}

/// A rigid-body camera pose on the fixed-point scale.
#[derive(Clone, Copy, PartialEq, Eq, Structural, Debug)]
pub struct Pose {
    pub rot: Quat,
    pub trans: Vec3,
}

impl View for Pose {
    type V = GPose;

    open spec fn view(&self) -> GPose {
        GPose { rot: self.rot@, trans: self.trans@ }
    }
}

/// A well-formed pose: the rotation is within the unit bound and the
/// translation within the representable world.
pub open spec fn gpose_wf(p: GPose) -> bool {
    &&& is_rotation(p.rot)
    &&& gnorm2(p.trans) <= COORD_LIMIT * COORD_LIMIT
}

/// Left-composition with an incremental rotation: the new pose applies `q`
/// after the old pose, i.e. rotates in the camera's local frame.
pub open spec fn gpose_rotate(p: GPose, q: GQuat) -> GPose {
    GPose { rot: gquat_mul(q, p.rot), trans: grot_vec(q, p.trans) }
}

/// Left-composition with an incremental translation: the new pose shifts
/// camera coordinates by `d`.
pub open spec fn gpose_translate(p: GPose, d: GVec3) -> GPose {
    GPose { rot: p.rot, trans: gvec_add(d, p.trans) }
}

/// Camera-space position of a world point under a pose.
pub open spec fn gtransform_point(p: GPose, v: GVec3) -> GVec3 {
    gvec_add(grot_vec(p.rot, v), p.trans)
}

/// Adding a bounded displacement moves the norm bound by at most three
/// times the displacement's component bound.
pub proof fn lemma_add_norm_bound(t: GVec3, d: GVec3, s: int, m: int)
    requires
        0 <= s,
        0 <= m,
        gnorm2(t) <= s * s,
        iabs(d.x) <= m,
        iabs(d.y) <= m,
        iabs(d.z) <= m,
    ensures
        gnorm2(gvec_add(d, t)) <= (s + 3 * m) * (s + 3 * m),
{
    lemma_comp_le_norm(t, s);
    assert((d.x + t.x) * (d.x + t.x) == t.x * t.x + 2 * (d.x * t.x) + d.x * d.x && (d.y + t.y) * (
    d.y + t.y) == t.y * t.y + 2 * (d.y * t.y) + d.y * d.y && (d.z + t.z) * (d.z + t.z) == t.z
        * t.z + 2 * (d.z * t.z) + d.z * d.z) by (nonlinear_arith);
    assert(iabs(d.x * t.x) <= m * s && iabs(d.y * t.y) <= m * s && iabs(d.z * t.z) <= m * s
        && d.x * d.x <= m * m && d.y * d.y <= m * m && d.z * d.z <= m * m) by (nonlinear_arith)
        requires
            0 <= s,
            0 <= m,
            iabs(t.x) <= s && iabs(t.y) <= s && iabs(t.z) <= s,
            iabs(d.x) <= m && iabs(d.y) <= m && iabs(d.z) <= m,
    ;
    assert((s + 3 * m) * (s + 3 * m) == s * s + 6 * (m * s) + 9 * (m * m)) by (nonlinear_arith);
    assert(m * m >= 0) by (nonlinear_arith);
}

impl Pose {
    /// The pose with identity orientation and the given camera offset.
    pub fn new(trans: Vec3) -> (r: Pose)
        requires
            gnorm2(trans@) <= COORD_LIMIT * COORD_LIMIT,
        ensures
            r@ == (GPose { rot: gquat_identity(), trans: trans@ }),
            gpose_wf(r@),
    {
        let rot = Quat::identity();
        Pose { rot, trans }
    }

    /// Composes an incremental rotation on the left: rotate in the
    /// camera's local frame.  The translation's norm never grows.
    pub fn rotate(&mut self, q: &Quat)
        requires
            is_rotation(q@),
            gpose_wf(old(self)@),
        ensures
            final(self)@ == gpose_rotate(old(self)@, q@),
            gpose_wf(final(self)@),
            gnorm2(final(self)@.trans) <= gnorm2(old(self)@.trans),
    {
        proof {
            lemma_mul_is_rotation(q@, self.rot@);
            lemma_rot_vec_norm(q@, self.trans@);
            assert(gnorm2(self@.trans) >= 0) by (nonlinear_arith);
        }
        self.rot = q.mul(&self.rot);
        self.trans = q.rotate(&self.trans);
    }

    /// Composes an incremental translation on the left: shift the camera
    /// in its local frame.  The caller keeps the camera inside the
    /// representable world.
    pub fn translate(&mut self, d: &Vec3)
        requires
            gpose_wf(old(self)@),
            gnorm2(d@) <= COORD_LIMIT * COORD_LIMIT,
            gnorm2(gvec_add(d@, old(self)@.trans)) <= COORD_LIMIT * COORD_LIMIT,
        ensures
            final(self)@ == gpose_translate(old(self)@, d@),
            gpose_wf(final(self)@),
    {
        proof {
            assert(gnorm2(self@.trans) >= 0 && gnorm2(d@) >= 0) by (nonlinear_arith);
            lemma_comp_le_norm(self.trans@, COORD_LIMIT as int);
            lemma_comp_le_norm(d@, COORD_LIMIT as int);
        }
        self.trans = d.add(&self.trans);
    }

    /// Camera-space position of a world point: rotate, then translate.
    pub fn transform_point(&self, p: &Vec3) -> (r: Vec3)
        requires
            gpose_wf(self@),
            gnorm2(p@) <= COORD_LIMIT * COORD_LIMIT,
        ensures
            r@ == gtransform_point(self@, p@),
            iabs(r@.x) <= 2 * COORD_LIMIT,
            iabs(r@.y) <= 2 * COORD_LIMIT,
            iabs(r@.z) <= 2 * COORD_LIMIT,
    {
        let rotated = self.rot.rotate(p);
        proof {
            assert(gnorm2(p@) >= 0) by (nonlinear_arith);
            lemma_comp_le_norm(rotated@, COORD_LIMIT as int);
            lemma_comp_le_norm(self.trans@, COORD_LIMIT as int);
        }
        rotated.add(&self.trans)
    }
}

} // verus!
