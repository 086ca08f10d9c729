//! Fixed-point 3-D vectors and their integer model.

use vstd::prelude::*;
use crate::fixed::iabs;

verus! {

/// Largest norm (on the fixed-point scale) that the viewer's world
/// coordinates may reach; keeps every intermediate product within `i128`.
pub const COORD_LIMIT: i64 = 0x1000_0000_0000_0000;

/// Mathematical model of a fixed-point vector: its three scaled components
/// as unbounded integers.
pub ghost struct GVec3 {
    pub x: int,
    pub y: int,
    pub z: int,
}

/// A point or displacement in 3-D space; each component is a fixed-point
/// value on the `FP_ONE` scale.
#[derive(Clone, Copy, PartialEq, Eq, Structural, Debug)]
pub struct Vec3 {
    pub x: i64,
    pub y: i64,
    pub z: i64,
}

impl View for Vec3 {
    type V = GVec3;

    open spec fn view(&self) -> GVec3 {
        GVec3 { x: self.x as int, y: self.y as int, z: self.z as int }
    }
}

/// Component-wise sum.
pub open spec fn gvec_add(a: GVec3, b: GVec3) -> GVec3 {
    GVec3 { x: a.x + b.x, y: a.y + b.y, z: a.z + b.z }
}

/// Squared Euclidean norm of the scaled components.
pub open spec fn gnorm2(v: GVec3) -> int {
    v.x * v.x + v.y * v.y + v.z * v.z
}

/// Every component of a vector is bounded by the vector's norm.
pub proof fn lemma_comp_le_norm(v: GVec3, m: int)
    requires
        m >= 0,
        gnorm2(v) <= m * m,
    ensures
        iabs(v.x) <= m,
        iabs(v.y) <= m,
        iabs(v.z) <= m,
{
    assert(iabs(v.x) <= m && iabs(v.y) <= m && iabs(v.z) <= m) by (nonlinear_arith)
        requires
            m >= 0,
            v.x * v.x + v.y * v.y + v.z * v.z <= m * m,
    ;
}

impl Vec3 {
    /// Builds a vector from scaled components.
    pub fn new(x: i64, y: i64, z: i64) -> (r: Vec3)
        ensures
            r@ == (GVec3 { x: x as int, y: y as int, z: z as int }),
    {
        Vec3 { x, y, z }
    }

    /// The zero vector.
    pub fn zero() -> (r: Vec3)
        ensures
            r@ == (GVec3 { x: 0, y: 0, z: 0 }),
    {
        Vec3 { x: 0, y: 0, z: 0 }
    }

    /// Component-wise sum.
    pub fn add(&self, o: &Vec3) -> (r: Vec3)
        requires
            iabs(self.x + o.x) <= i64::MAX,
            iabs(self.y + o.y) <= i64::MAX,
            iabs(self.z + o.z) <= i64::MAX,
        ensures
            r@ == gvec_add(self@, o@),
    {
        Vec3 { x: self.x + o.x, y: self.y + o.y, z: self.z + o.z }
    }
}

} // verus!
