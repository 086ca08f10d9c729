//! The input mapper.
//!
//! Each frame, every held movement key issues exactly one fixed-magnitude
//! pose update.  Simultaneously held keys compose in one fixed order —
//! rolls, then looks, then moves — and that order is part of the
//! contract, because quaternion composition does not commute.

use vstd::prelude::*;
use crate::fixed::{FP_ONE, iabs, quot};
use crate::fixed::lemma_quot_lower;
use crate::vec3::{GVec3, Vec3, gnorm2, gvec_add, COORD_LIMIT};
use crate::quat::{GQuat, Quat, gquat_identity, gquat_mul, gquat_conj, gpure, gqm_w, gqm_x, gqm_y, gqm_z};
use crate::pose::{GPose, Pose, gpose_wf, gpose_rotate, gpose_translate, lemma_add_norm_bound};

verus! {

/// Which of the twelve movement keys are held this frame.
#[derive(Clone, Copy, PartialEq, Eq, Structural, Debug, Default)]
pub struct HeldKeys {
    pub roll_left: bool,
    pub roll_right: bool,
    pub look_up: bool,
    pub look_down: bool,
    pub look_left: bool,
    pub look_right: bool,
    pub move_left: bool,
    pub move_right: bool,
    pub move_up: bool,
    pub move_down: bool,
    pub move_forward: bool,
    pub move_back: bool,
}

/// Per-frame movement magnitudes, all fixed-point: the cosine and sine of
/// half the turn angle, and the translation step.
#[derive(Clone, Copy, PartialEq, Eq, Structural, Debug)]
pub struct StepSizes {
    pub turn_cos_half: i64,
    pub turn_sin_half: i64,
    pub move_step: i64,
}

/// Well-formed step sizes: the half-angle pair lies within the unit
/// circle and the translation step is at most one world unit per frame.
pub open spec fn gsteps_wf(st: StepSizes) -> bool {
    &&& 0 <= st.turn_cos_half
    &&& 0 <= st.turn_sin_half
    &&& st.turn_cos_half * st.turn_cos_half + st.turn_sin_half * st.turn_sin_half <= FP_ONE
        * FP_ONE
    &&& 0 <= st.move_step <= FP_ONE
}

/// The pose after the six rotation actions, in their fixed order: roll
/// left, roll right, look up, look down, look left, look right.
pub open spec fn gapply_rotations(p: GPose, k: HeldKeys, c: int, s: int) -> GPose {
    let p1 = if k.roll_left {
        gpose_rotate(p, GQuat { w: c, x: 0, y: 0, z: -s })
    } else {
        p
    };
    let p2 = if k.roll_right {
        gpose_rotate(p1, GQuat { w: c, x: 0, y: 0, z: s })
    } else {
        p1
    };
    let p3 = if k.look_up {
        gpose_rotate(p2, GQuat { w: c, x: -s, y: 0, z: 0 })
    } else {
        p2
    };
    let p4 = if k.look_down {
        gpose_rotate(p3, GQuat { w: c, x: s, y: 0, z: 0 })
    } else {
        p3
    };
    let p5 = if k.look_left {
        gpose_rotate(p4, GQuat { w: c, x: 0, y: -s, z: 0 })
    } else {
        p4
    };
    let p6 = if k.look_right {
        gpose_rotate(p5, GQuat { w: c, x: 0, y: s, z: 0 })
    } else {
        p5
    };
    p6
}

/// The pose after the six translation actions, in their fixed order:
/// move left, move right, move up, move down, move forward, move back.
pub open spec fn gapply_moves(p: GPose, k: HeldKeys, m: int) -> GPose {
    let p1 = if k.move_left {
        gpose_translate(p, GVec3 { x: m, y: 0, z: 0 })
    } else {
        p
    };
    let p2 = if k.move_right {
        gpose_translate(p1, GVec3 { x: -m, y: 0, z: 0 })
    } else {
        p1
    };
    let p3 = if k.move_up {
        gpose_translate(p2, GVec3 { x: 0, y: -m, z: 0 })
    } else {
        p2
    };
    let p4 = if k.move_down {
        gpose_translate(p3, GVec3 { x: 0, y: m, z: 0 })
    } else {
        p3
    };
    let p5 = if k.move_forward {
        gpose_translate(p4, GVec3 { x: 0, y: 0, z: m })
    } else {
        p4
    };
    let p6 = if k.move_back {
        gpose_translate(p5, GVec3 { x: 0, y: 0, z: -m })
    } else {
        p5
    };
    p6
}

/// The pose after applying every held action once, in the fixed order:
/// rolls, then looks, then moves.  `c` and `s` are the half-angle cosine
/// and sine of the turn step, `m` the translation step.
pub open spec fn gapply_actions(p: GPose, k: HeldKeys, c: int, s: int, m: int) -> GPose {
    gapply_moves(gapply_rotations(p, k, c, s), k, m)
}

#[verifier::spinoff_prover]
fn apply_rotations(pose: &mut Pose, keys: &HeldKeys, tc: i64, ts: i64)
    requires
        gpose_wf(old(pose)@),
        0 <= tc,
        0 <= ts,
        tc * tc + ts * ts <= FP_ONE * FP_ONE,
    ensures
        final(pose)@ == gapply_rotations(old(pose)@, *keys, tc as int, ts as int),
        gpose_wf(final(pose)@),
        gnorm2(final(pose)@.trans) <= gnorm2(old(pose)@.trans),
{
    proof {
        assert((-ts) * (-ts) == ts * ts && ts * ts >= 0 && tc * tc >= 0) by (nonlinear_arith);
        let t0 = old(pose)@.trans;
        assert(gnorm2(t0) >= 0) by (nonlinear_arith);
    }
    let ghost c = tc as int;
    let ghost s = ts as int;
    let ghost p0 = old(pose)@;
    if keys.roll_left {
        let q = Quat::about_z(tc, -ts);
        pose.rotate(&q);
    }
    let ghost p1 = if keys.roll_left {
        gpose_rotate(p0, GQuat { w: c, x: 0, y: 0, z: -s })
    } else {
        p0
    };
    proof {
        assert(pose@ == p1);
    }
    if keys.roll_right {
        let q = Quat::about_z(tc, ts);
        pose.rotate(&q);
    }
    let ghost p2 = if keys.roll_right {
        gpose_rotate(p1, GQuat { w: c, x: 0, y: 0, z: s })
    } else {
        p1
    };
    proof {
        assert(pose@ == p2);
    }
    if keys.look_up {
        let q = Quat::about_x(tc, -ts);
        pose.rotate(&q);
    }
    let ghost p3 = if keys.look_up {
        gpose_rotate(p2, GQuat { w: c, x: -s, y: 0, z: 0 })
    } else {
        p2
    };
    proof {
        assert(pose@ == p3);
    }
    if keys.look_down {
        let q = Quat::about_x(tc, ts);
        pose.rotate(&q);
    }
    let ghost p4 = if keys.look_down {
        gpose_rotate(p3, GQuat { w: c, x: s, y: 0, z: 0 })
    } else {
        p3
    };
    proof {
        assert(pose@ == p4);
    }
    if keys.look_left {
        let q = Quat::about_y(tc, -ts);
        pose.rotate(&q);
    }
    let ghost p5 = if keys.look_left {
        gpose_rotate(p4, GQuat { w: c, x: 0, y: -s, z: 0 })
    } else {
        p4
    };
    proof {
        assert(pose@ == p5);
    }
    if keys.look_right {
        let q = Quat::about_y(tc, ts);
        pose.rotate(&q);
    }
    let ghost p6 = if keys.look_right {
        gpose_rotate(p5, GQuat { w: c, x: 0, y: s, z: 0 })
    } else {
        p5
    };
    proof {
        assert(pose@ == p6);
    }
}

#[verifier::spinoff_prover]
fn apply_moves(pose: &mut Pose, keys: &HeldKeys, m: i64)
    requires
        gpose_wf(old(pose)@),
        0 <= m <= FP_ONE,
        gnorm2(old(pose)@.trans) <= (COORD_LIMIT - 20 * FP_ONE) * (COORD_LIMIT - 20 * FP_ONE),
    ensures
        final(pose)@ == gapply_moves(old(pose)@, *keys, m as int),
        gpose_wf(final(pose)@),
{
    let ghost b0 = COORD_LIMIT - 20 * FP_ONE;
    let ghost p0 = old(pose)@;
    if keys.move_left {
        proof {
            translate_step_bounds(pose@.trans, GVec3 { x: m as int, y: 0, z: 0 }, b0, m as int);
        }
        pose.translate(&Vec3 { x: m, y: 0, z: 0 });
    } else {
        proof {
            lemma_norm_relax(gnorm2(pose@.trans), b0, b0 + 3 * FP_ONE);
        }
    }
    let ghost p1 = if keys.move_left {
        gpose_translate(p0, GVec3 { x: m as int, y: 0, z: 0 })
    } else {
        p0
    };
    proof {
        assert(pose@ == p1);
        assert(gnorm2(p1.trans) <= (b0 + 3 * FP_ONE) * (b0 + 3 * FP_ONE));
    }
    if keys.move_right {
        proof {
            translate_step_bounds(pose@.trans, GVec3 { x: -(m as int), y: 0, z: 0 }, b0 + 3 * FP_ONE, m as int);
        }
        pose.translate(&Vec3 { x: -m, y: 0, z: 0 });
    } else {
        proof {
            lemma_norm_relax(gnorm2(pose@.trans), b0 + 3 * FP_ONE, b0 + 6 * FP_ONE);
        }
    }
    let ghost p2 = if keys.move_right {
        gpose_translate(p1, GVec3 { x: -(m as int), y: 0, z: 0 })
    } else {
        p1
    };
    proof {
        assert(pose@ == p2);
        assert(gnorm2(p2.trans) <= (b0 + 6 * FP_ONE) * (b0 + 6 * FP_ONE));
    }
    if keys.move_up {
        proof {
            translate_step_bounds(pose@.trans, GVec3 { x: 0, y: -(m as int), z: 0 }, b0 + 6 * FP_ONE, m as int);
        }
        pose.translate(&Vec3 { x: 0, y: -m, z: 0 });
    } else {
        proof {
            lemma_norm_relax(gnorm2(pose@.trans), b0 + 6 * FP_ONE, b0 + 9 * FP_ONE);
        }
    }
    let ghost p3 = if keys.move_up {
        gpose_translate(p2, GVec3 { x: 0, y: -(m as int), z: 0 })
    } else {
        p2
    };
    proof {
        assert(pose@ == p3);
        assert(gnorm2(p3.trans) <= (b0 + 9 * FP_ONE) * (b0 + 9 * FP_ONE));
    }
    if keys.move_down {
        proof {
            translate_step_bounds(pose@.trans, GVec3 { x: 0, y: m as int, z: 0 }, b0 + 9 * FP_ONE, m as int);
        }
        pose.translate(&Vec3 { x: 0, y: m, z: 0 });
    } else {
        proof {
            lemma_norm_relax(gnorm2(pose@.trans), b0 + 9 * FP_ONE, b0 + 12 * FP_ONE);
        }
    }
    let ghost p4 = if keys.move_down {
        gpose_translate(p3, GVec3 { x: 0, y: m as int, z: 0 })
    } else {
        p3
    };
    proof {
        assert(pose@ == p4);
        assert(gnorm2(p4.trans) <= (b0 + 12 * FP_ONE) * (b0 + 12 * FP_ONE));
    }
    if keys.move_forward {
        proof {
            translate_step_bounds(pose@.trans, GVec3 { x: 0, y: 0, z: m as int }, b0 + 12 * FP_ONE, m as int);
        }
        pose.translate(&Vec3 { x: 0, y: 0, z: m });
    } else {
        proof {
            lemma_norm_relax(gnorm2(pose@.trans), b0 + 12 * FP_ONE, b0 + 15 * FP_ONE);
        }
    }
    let ghost p5 = if keys.move_forward {
        gpose_translate(p4, GVec3 { x: 0, y: 0, z: m as int })
    } else {
        p4
    };
    proof {
        assert(pose@ == p5);
        assert(gnorm2(p5.trans) <= (b0 + 15 * FP_ONE) * (b0 + 15 * FP_ONE));
    }
    if keys.move_back {
        proof {
            translate_step_bounds(pose@.trans, GVec3 { x: 0, y: 0, z: -(m as int) }, b0 + 15 * FP_ONE, m as int);
        }
        pose.translate(&Vec3 { x: 0, y: 0, z: -m });
    } else {
        proof {
            lemma_norm_relax(gnorm2(pose@.trans), b0 + 15 * FP_ONE, b0 + 18 * FP_ONE);
        }
    }
    let ghost p6 = if keys.move_back {
        gpose_translate(p5, GVec3 { x: 0, y: 0, z: -(m as int) })
    } else {
        p5
    };
    proof {
        assert(pose@ == p6);
        assert(gnorm2(p6.trans) <= (b0 + 18 * FP_ONE) * (b0 + 18 * FP_ONE));
    }
}

/// Applies every held action to the pose, in the fixed order of
/// `gapply_actions`.  The camera must start far enough inside the world
/// bound that one frame of movement cannot leave it.
pub fn apply_actions(pose: &mut Pose, keys: &HeldKeys, steps: &StepSizes)
    requires
        gpose_wf(old(pose)@),
        gsteps_wf(*steps),
        gnorm2(old(pose)@.trans) <= (COORD_LIMIT - 20 * FP_ONE) * (COORD_LIMIT - 20 * FP_ONE),
    ensures
        final(pose)@ == gapply_actions(
            old(pose)@,
            *keys,
            steps.turn_cos_half as int,
            steps.turn_sin_half as int,
            steps.move_step as int,
        ),
        gpose_wf(final(pose)@),
{
    apply_rotations(pose, keys, steps.turn_cos_half, steps.turn_sin_half);
    apply_moves(pose, keys, steps.move_step);
}

/// The initial pose: identity orientation, camera at the origin.
pub open spec fn gstart_pose() -> GPose {
    GPose { rot: gquat_identity(), trans: GVec3 { x: 0, y: 0, z: 0 } }
}

/// Composition order matters: from the initial pose, moving forward and
/// then yawing gives a different pose than yawing and then moving
/// forward, whenever both steps are large enough to register at the
/// fixed-point resolution — quaternion composition does not commute.
/// (Steps below that resolution are swallowed by the rounding: with the
/// smallest positive sine and a one-unit move both orders collapse to the
/// same stored pose.)
pub proof fn lemma_order_of_actions_matters(c: int, s: int, m: int)
    requires
        1 <= c,
        1 <= s,
        1 <= m,
        c * c + s * s <= FP_ONE * FP_ONE,
        2 * (c * (s * m)) >= FP_ONE * FP_ONE + FP_ONE * (c + s),
    ensures
        gpose_rotate(gpose_translate(gstart_pose(), GVec3 { x: 0, y: 0, z: m }), GQuat { w: c, x: 0, y: s, z: 0 })
            != gpose_translate(gpose_rotate(gstart_pose(), GQuat { w: c, x: 0, y: s, z: 0 }), GVec3 { x: 0, y: 0, z: m }),
{
    let f = FP_ONE as int;
    let yaw = GQuat { w: c, x: 0, y: s, z: 0 };
    let cj = gquat_conj(yaw);
    assert(cj.w == c && cj.x == 0 && cj.y == -s && cj.z == 0);
    let fwd = GVec3 { x: 0, y: 0, z: m };
    let start = gstart_pose();
    let a = gpose_rotate(gpose_translate(start, fwd), yaw);
    let b = gpose_translate(gpose_rotate(start, yaw), fwd);

    // Yawing first rotates a zero translation, which stays zero, so that
    // order just leaves the forward step as the translation.
    let zp = gpure(GVec3 { x: 0, y: 0, z: 0 });
    let hz = gquat_mul(yaw, zp);
    assert(gqm_w(yaw, zp) == 0 && gqm_x(yaw, zp) == 0 && gqm_y(yaw, zp) == 0 && gqm_z(yaw, zp)
        == 0);
    assert(quot(0, f) == 0);
    let nzx = gqm_x(hz, cj);
    assert(nzx == 0) by (nonlinear_arith)
        requires
            nzx == hz.w * cj.x + hz.x * cj.w + hz.y * cj.z - hz.z * cj.y,
            hz.w == 0 && hz.x == 0 && hz.y == 0 && hz.z == 0,
    ;
    assert(b.trans.x == 0);

    // Moving first makes the yaw act on the forward step; its sideways
    // component survives the rounding because the steps are big enough.
    let v = gvec_add(fwd, start.trans);
    assert(v == fwd);
    let p = gpure(fwd);
    let h = gquat_mul(yaw, p);
    let smv = s * m;
    let cmv = c * m;
    assert(gqm_x(yaw, p) == smv && gqm_z(yaw, p) == cmv && gqm_w(yaw, p) == 0 && gqm_y(yaw, p)
        == 0);
    assert(smv >= 1 && cmv >= 1) by (nonlinear_arith)
        requires
            c >= 1 && s >= 1 && m >= 1,
            smv == s * m,
            cmv == c * m,
    ;
    let hx = h.x;
    let hzc = h.z;
    assert(hx == smv / 65536 && hzc == cmv / 65536);
    assert(hx * 65536 > smv - 65536 && hx >= 0 && hzc * 65536 > cmv - 65536 && hzc >= 0)
        by (nonlinear_arith)
        requires
            smv >= 1,
            cmv >= 1,
            hx == smv / 65536,
            hzc == cmv / 65536,
    ;
    assert(c <= 65536 && s <= 65536) by (nonlinear_arith)
        requires
            0 <= c,
            0 <= s,
            c * c + s * s <= 65536 * 65536,
    ;
    let n = gqm_x(h, cj);
    assert(n == hx * c + hzc * s) by (nonlinear_arith)
        requires
            n == h.w * cj.x + h.x * cj.w + h.y * cj.z - h.z * cj.y,
            h.w == 0 && h.y == 0 && h.x == hx && h.z == hzc,
            cj.w == c && cj.x == 0 && cj.y == -s && cj.z == 0,
    ;
    assert(n >= 65536) by (nonlinear_arith)
        requires
            n == hx * c + hzc * s,
            hx * 65536 > smv - 65536,
            hzc * 65536 > cmv - 65536,
            hx >= 0 && hzc >= 0,
            c >= 1 && s >= 1,
            smv == s * m,
            cmv == c * m,
            2 * (c * (s * m)) >= 65536 * 65536 + 65536 * (c + s),
            c <= 65536 && s <= 65536,
    ;
    lemma_quot_lower(n, f);
    assert(a.trans.x == quot(n, f));
    assert(a.trans.x >= 1);
    assert(a.trans.x != b.trans.x);
}

/// One translation step keeps the camera within the world bound and is
/// itself a small vector; the norm bound grows by at most three step
/// magnitudes.
proof fn translate_step_bounds(t: GVec3, d: GVec3, b: int, m: int)
    requires
        0 <= b <= COORD_LIMIT - 5 * FP_ONE,
        0 <= m <= FP_ONE,
        gnorm2(t) <= b * b,
        iabs(d.x) <= m,
        iabs(d.y) <= m,
        iabs(d.z) <= m,
    ensures
        gnorm2(d) <= COORD_LIMIT * COORD_LIMIT,
        gnorm2(gvec_add(d, t)) <= COORD_LIMIT * COORD_LIMIT,
        gnorm2(gvec_add(d, t)) <= (b + 3 * FP_ONE) * (b + 3 * FP_ONE),
{
    lemma_add_norm_bound(t, d, b, m);
    assert(gnorm2(d) == d.x * d.x + d.y * d.y + d.z * d.z);
    assert(d.x * d.x <= m * m && d.y * d.y <= m * m && d.z * d.z <= m * m) by (nonlinear_arith)
        requires
            iabs(d.x) <= m && iabs(d.y) <= m && iabs(d.z) <= m,
            m >= 0,
    ;
    assert(3 * (m * m) <= COORD_LIMIT * COORD_LIMIT) by (nonlinear_arith)
        requires
            0 <= m <= FP_ONE,
            FP_ONE == 65536,
            COORD_LIMIT == 0x1000_0000_0000_0000,
    ;
    assert((b + 3 * m) * (b + 3 * m) <= (b + 3 * FP_ONE) * (b + 3 * FP_ONE)) by (nonlinear_arith)
        requires
            0 <= b,
            0 <= m <= FP_ONE,
    ;
    assert((b + 3 * FP_ONE) * (b + 3 * FP_ONE) <= COORD_LIMIT * COORD_LIMIT) by (nonlinear_arith)
        requires
            0 <= b <= COORD_LIMIT - 5 * FP_ONE,
            FP_ONE == 65536,
            COORD_LIMIT == 0x1000_0000_0000_0000,
    ;
}

/// Squares of nonnegative bounds are monotone.
proof fn lemma_norm_relax(x: int, a: int, b: int)
    requires
        x <= a * a,
        0 <= a <= b,
    ensures
        x <= b * b,
{
    assert(a * a <= b * b) by (nonlinear_arith)
        requires
            0 <= a <= b,
    ;
}

} // verus!
