//! Perspective projection, visibility and screen mapping.
//!
//! A camera-space point is carried to clip space by the standard
//! perspective transform (vertical field of view, aspect ratio, near and
//! far planes).  A point is visible exactly when all three clip
//! coordinates lie strictly inside the open interval from minus one to
//! one; the test is decided by exact integer comparisons of the clip
//! numerators against their denominators, so it has no rounding error at
//! all.  Clip and screen coordinates themselves are fixed-point values
//! rounded toward zero.

use vstd::prelude::*;
use crate::fixed::{FP_ONE, iabs, quot, div_trunc, abs128};
use crate::fixed::{lemma_quot_mag_signed};
use crate::vec3::{GVec3, Vec3, COORD_LIMIT};
use crate::pose::{GPose, Pose, gpose_wf, gtransform_point};
use crate::vec3::gnorm2;

verus! {

/// Largest value accepted for the camera parameters and viewport extents.
pub const PARAM_LIMIT: i64 = 0x8000_0000;

/// Largest clip coordinate that is still reported; beyond it the point is
/// far outside the frustum and the original's debug values are meaningless.
pub const CLIP_LIMIT: i64 = 0x8000_0000;

/// Mathematical model of the camera parameters.
pub ghost struct GParams {
    pub tan: int,
    pub aspect: int,
    pub near: int,
    pub far: int,
}

/// Per-frame camera parameters, all fixed-point: the tangent of half the
/// vertical field of view, the viewport aspect ratio, and the near and far
/// planes.
#[derive(Clone, Copy, PartialEq, Eq, Structural, Debug)]
pub struct CameraParams {
    pub tan_half_fov: i64,
    pub aspect: i64,
    pub near: i64,
    pub far: i64,
}

impl View for CameraParams {
    type V = GParams;

    open spec fn view(&self) -> GParams {
        GParams {
            tan: self.tan_half_fov as int,
            aspect: self.aspect as int,
            near: self.near as int,
            far: self.far as int,
        }
    }
}

/// Mathematical model of the viewport extents.
pub ghost struct GViewport {
    pub width: int,
    pub height: int,
}

/// Viewport extents in fixed-point pixels.
#[derive(Clone, Copy, PartialEq, Eq, Structural, Debug)]
pub struct Viewport {
    pub width: i64,
    pub height: i64,
}

impl View for Viewport {
    type V = GViewport;

    open spec fn view(&self) -> GViewport {
        GViewport { width: self.width as int, height: self.height as int }
    }
}

/// Well-formed camera parameters.  A zero aspect ratio is allowed: it is
/// the degenerate zero-height viewport, under which nothing is visible.
pub open spec fn gparams_wf(pr: GParams) -> bool {
    &&& 0 < pr.tan <= PARAM_LIMIT
    &&& 0 <= pr.aspect <= PARAM_LIMIT
    &&& 0 < pr.near < pr.far <= PARAM_LIMIT
}

pub open spec fn gview_wf(vp: GViewport) -> bool {
    &&& 0 <= vp.width <= PARAM_LIMIT
    &&& 0 <= vp.height <= PARAM_LIMIT
}

/// Depth of a camera-space point: the camera looks down the negative z
/// axis, so depth is the negated z coordinate.
pub open spec fn gdepth(cam: GVec3) -> int {
    -cam.z
}

/// Clip-space denominators and numerators.  The x and y denominators come
/// from the perspective divide by the depth; the z pair encodes the
/// near/far remapping.  All are exact integers.
pub open spec fn gden_x(cam: GVec3, pr: GParams) -> int {
    pr.aspect * pr.tan * gdepth(cam)
}

pub open spec fn gden_y(cam: GVec3, pr: GParams) -> int {
    pr.tan * gdepth(cam)
}

pub open spec fn gnum_z(cam: GVec3, pr: GParams) -> int {
    (pr.far + pr.near) * cam.z + 2 * (pr.far * pr.near)
}

pub open spec fn gden_z(cam: GVec3, pr: GParams) -> int {
    (pr.far - pr.near) * cam.z
}

/// Visibility: every clip coordinate lies strictly inside the open
/// interval from minus one to one.  Stated exactly on the numerators, so
/// a coordinate exactly on the boundary is not visible, and a vanishing
/// denominator (depth zero, or a degenerate aspect ratio) never is.
pub open spec fn gvisible(cam: GVec3, pr: GParams) -> bool {
    &&& iabs(cam.x * FP_ONE * FP_ONE) < iabs(gden_x(cam, pr))
    &&& iabs(cam.y * FP_ONE) < iabs(gden_y(cam, pr))
    &&& iabs(gnum_z(cam, pr)) < iabs(gden_z(cam, pr))
}

/// Fixed-point clip coordinates, rounded toward zero.
pub open spec fn gclip_x(cam: GVec3, pr: GParams) -> int {
    quot(cam.x * FP_ONE * FP_ONE * FP_ONE, gden_x(cam, pr))
}

pub open spec fn gclip_y(cam: GVec3, pr: GParams) -> int {
    quot(cam.y * FP_ONE * FP_ONE, gden_y(cam, pr))
}

pub open spec fn gclip_z(cam: GVec3, pr: GParams) -> int {
    quot(gnum_z(cam, pr) * FP_ONE, gden_z(cam, pr))
}

/// The clip coordinates are reported when no denominator vanishes and
/// every coordinate is within the reporting range.
pub open spec fn gclip_defined(cam: GVec3, pr: GParams) -> bool {
    &&& gden_x(cam, pr) != 0
    &&& gden_y(cam, pr) != 0
    &&& gden_z(cam, pr) != 0
    &&& iabs(gclip_x(cam, pr)) <= CLIP_LIMIT
    &&& iabs(gclip_y(cam, pr)) <= CLIP_LIMIT
    &&& iabs(gclip_z(cam, pr)) <= CLIP_LIMIT
}

pub open spec fn gclip_vec(cam: GVec3, pr: GParams) -> GVec3 {
    GVec3 { x: gclip_x(cam, pr), y: gclip_y(cam, pr), z: gclip_z(cam, pr) }
}

/// Screen mapping of one clip coordinate over a viewport extent:
/// `extent * (clip + 1) / 2`, on the fixed-point scale.
pub open spec fn gscreen_coord(c: int, extent: int) -> int {
    quot(extent * (c + FP_ONE), 2 * FP_ONE)
}

pub open spec fn gscreen_vec(cam: GVec3, pr: GParams, vp: GViewport) -> GVec3 {
    GVec3 {
        x: gscreen_coord(gclip_x(cam, pr), vp.width),
        y: gscreen_coord(gclip_y(cam, pr), vp.height),
        z: 0,
    }
}

pub open spec fn gvec3_zero() -> GVec3 {
    GVec3 { x: 0, y: 0, z: 0 }
}

/// Everything the projection of one point promises.
pub open spec fn gprojected_ok(pp: ProjectedPoint, cam: GVec3, pr: GParams, vp: GViewport) -> bool {
    &&& pp.camera@ == cam
    &&& pp.visible == gvisible(cam, pr)
    &&& pp.clip_in_range == gclip_defined(cam, pr)
    &&& (pp.clip_in_range ==> pp.clip@ == gclip_vec(cam, pr) && pp.screen@ == gscreen_vec(
        cam,
        pr,
        vp,
    ))
    &&& (!pp.clip_in_range ==> pp.clip@ == gvec3_zero() && pp.screen@ == gvec3_zero())
    &&& (pp.visible ==> pp.clip_in_range)
}

/// The per-frame projection record of one point: its camera-space
/// position, clip coordinates, visibility, and screen placement.  When the
/// clip coordinates cannot be reported the clip and screen fields are
/// zero and `clip_in_range` is false; a visible point always has them.
#[derive(Clone, Copy, PartialEq, Eq, Structural, Debug)]
pub struct ProjectedPoint {
    pub camera: Vec3,
    pub clip: Vec3,
    pub clip_in_range: bool,
    pub visible: bool,
    pub screen: Vec3,
}

/// A visible point's clip coordinates are defined and strictly inside the
/// unit range on the fixed-point scale.
pub proof fn lemma_visible_clip_defined(cam: GVec3, pr: GParams)
    requires
        gvisible(cam, pr),
    ensures
        gclip_defined(cam, pr),
        iabs(gclip_x(cam, pr)) <= FP_ONE,
        iabs(gclip_y(cam, pr)) <= FP_ONE,
        iabs(gclip_z(cam, pr)) <= FP_ONE,
{
    let f = FP_ONE as int;
    let dx = gden_x(cam, pr);
    let dy = gden_y(cam, pr);
    let dz = gden_z(cam, pr);
    assert(iabs(cam.x * f * f * f) <= f * iabs(dx) && iabs(cam.y * f * f) <= f * iabs(dy) && iabs(
        gnum_z(cam, pr) * f,
    ) <= f * iabs(dz)) by (nonlinear_arith)
        requires
            f == 65536,
            iabs(cam.x * f * f) < iabs(dx),
            iabs(cam.y * f) < iabs(dy),
            iabs(gnum_z(cam, pr)) < iabs(dz),
    ;
    lemma_quot_mag_signed(cam.x * f * f * f, dx, f);
    lemma_quot_mag_signed(cam.y * f * f, dy, f);
    lemma_quot_mag_signed(gnum_z(cam, pr) * f, dz, f);
}

/// The z clip test reads exactly as a depth range: a point passes it if
/// and only if its depth lies strictly between the near and far planes.
pub proof fn lemma_visible_depth_range(cam: GVec3, pr: GParams)
    requires
        gparams_wf(pr),
    ensures
        (iabs(gnum_z(cam, pr)) < iabs(gden_z(cam, pr))) <==> (pr.near < gdepth(cam) < pr.far),
{
    let w = gdepth(cam);
    let nr = pr.near;
    let fr = pr.far;
    if w <= 0 {
        assert(iabs(gnum_z(cam, pr)) >= iabs(gden_z(cam, pr))) by (nonlinear_arith)
            requires
                0 < nr < fr,
                w <= 0,
                gnum_z(cam, pr) == (fr + nr) * (-w) + 2 * (fr * nr),
                gden_z(cam, pr) == (fr - nr) * (-w),
        ;
    } else {
        assert((iabs(gnum_z(cam, pr)) < iabs(gden_z(cam, pr))) <==> (nr < w < fr))
            by (nonlinear_arith)
            requires
                0 < nr < fr,
                w > 0,
                gnum_z(cam, pr) == (fr + nr) * (-w) + 2 * (fr * nr),
                gden_z(cam, pr) == (fr - nr) * (-w),
        ;
    }
}

/// Visibility depends only on the camera-space position: two poses and
/// points that agree there (for instance after translating the camera and
/// the point by the same world displacement) are visible together.
pub proof fn lemma_visibility_translation_invariant(
    p1: GPose,
    v1: GVec3,
    p2: GPose,
    v2: GVec3,
    pr: GParams,
)
    requires
        gtransform_point(p1, v1) == gtransform_point(p2, v2),
    ensures
        gvisible(gtransform_point(p1, v1), pr) == gvisible(gtransform_point(p2, v2), pr),
{
}

/// Round trip of the projection formulas along one axis, on the exact
/// rationals (multiplicatively, so no rounding is involved): the screen
/// position determines the clip coordinate it came from, and unprojecting
/// the clip coordinate at any chosen depth lands on the ray from the
/// camera origin through the original point.  Here `p` is the product of
/// the constants of the axis (aspect times tangent for x, the tangent for
/// y), `w` the original depth and `d` the chosen depth.
pub proof fn lemma_unproject_round_trip(
    coord: int,
    p: int,
    w: int,
    d: int,
    width: int,
    cx: int,
    sx: int,
    ux: int,
)
    requires
        p != 0,
        w != 0,
        d != 0,
        width > 0,
        cx * (p * w) == coord * FP_ONE * FP_ONE * FP_ONE,
        2 * FP_ONE * sx == width * (cx + FP_ONE),
        ux * FP_ONE * FP_ONE * FP_ONE == cx * (p * d),
    ensures
        cx * width == 2 * FP_ONE * sx - FP_ONE * width,
        ux * w == coord * d,
{
    let f = FP_ONE as int;
    assert(cx * width == width * (cx + f) - f * width) by (nonlinear_arith);
    assert((ux * f * f * f) * w == (cx * (p * w)) * d) by (nonlinear_arith)
        requires
            ux * f * f * f == cx * (p * d),
    ;
    assert((coord * f * f * f) * d == (coord * d) * (f * f * f)) by (nonlinear_arith);
    assert((ux * f * f * f) * w == (ux * w) * (f * f * f)) by (nonlinear_arith);
    assert((cx * (p * w)) * d == (coord * f * f * f) * d) by (nonlinear_arith)
        requires
            cx * (p * w) == coord * f * f * f,
    ;
    assert(ux * w == coord * d) by (nonlinear_arith)
        requires
            f == 65536,
            (ux * w) * (f * f * f) == (coord * d) * (f * f * f),
    ;
}

/// Aspect ratio of a viewport, rounded toward zero; a degenerate
/// zero-height viewport yields zero, under which nothing is visible.
pub open spec fn gaspect(width: int, height: int) -> int {
    if height > 0 {
        quot(width * FP_ONE, height)
    } else {
        0
    }
}

pub fn aspect_ratio(width: i64, height: i64) -> (r: i64)
    requires
        0 <= width <= PARAM_LIMIT,
        0 <= height <= PARAM_LIMIT,
    ensures
        r == gaspect(width as int, height as int),
{
    if height > 0 {
        let num: i128 = (width as i128) * 65536;
        assert(num == (width as int) * FP_ONE);
        let q = div_trunc(num, height as i128);
        q as i64
    } else {
        0
    }
}

/// Projects one camera-space point: visibility by exact comparison, then
/// the clip and screen coordinates where they are representable.
pub fn project_point(cam: &Vec3, params: &CameraParams, viewport: &Viewport) -> (r: ProjectedPoint)
    requires
        gparams_wf(params@),
        gview_wf(viewport@),
        iabs(cam@.x) <= 2 * COORD_LIMIT,
        iabs(cam@.y) <= 2 * COORD_LIMIT,
        iabs(cam@.z) <= 2 * COORD_LIMIT,
    ensures
        gprojected_ok(r, cam@, params@, viewport@),
{
    let fx: i128 = FP_ONE as i128;
    let x = cam.x as i128;
    let y = cam.y as i128;
    let z = cam.z as i128;
    let w: i128 = -z;
    let a = params.aspect as i128;
    let t = params.tan_half_fov as i128;
    let nr = params.near as i128;
    let fr = params.far as i128;
    proof {
        assert(iabs(a * t) <= 0x4000_0000_0000_0000 && iabs(t * w) <= 0x2000_0000_0000_0000
            * 0x8000_0000 && iabs(fr * nr) <= 0x4000_0000_0000_0000 && iabs((fr - nr) * z)
            <= 0x4000_0000_0000_0000 * 0x8000_0000 && iabs((fr + nr) * z)
            <= 0x4000_0000_0000_0000 * 0x8000_0000) by (nonlinear_arith)
            requires
                iabs(z as int) <= 0x2000_0000_0000_0000,
                iabs(w as int) <= 0x2000_0000_0000_0000,
                0 <= a <= 0x8000_0000,
                0 < t <= 0x8000_0000,
                0 < nr < fr <= 0x8000_0000,
        ;
        assert(iabs((a * t) * w) <= 0x4000_0000_0000_0000 * 0x2000_0000_0000_0000)
            by (nonlinear_arith)
            requires
                iabs(a * t) <= 0x4000_0000_0000_0000,
                iabs(w as int) <= 0x2000_0000_0000_0000,
        ;
    }
    let dx: i128 = a * t * w;
    let dy: i128 = t * w;
    let dz: i128 = (fr - nr) * z;
    let nx2: i128 = x * fx * fx;
    let nyv: i128 = y * fx;
    let nz: i128 = (fr + nr) * z + 2 * (fr * nr);
    let visible = abs128(nx2) < abs128(dx) && abs128(nyv) < abs128(dy) && abs128(nz) < abs128(dz);
    proof {
        if gvisible(cam@, params@) {
            lemma_visible_clip_defined(cam@, params@);
        }
    }
    if dx != 0 && dy != 0 && dz != 0 {
        let cx = div_trunc(nx2 * fx, dx);
        let cy = div_trunc(nyv * fx, dy);
        let cz = div_trunc(nz * fx, dz);
        let cl = CLIP_LIMIT as i128;
        if -cl <= cx && cx <= cl && -cl <= cy && cy <= cl && -cl <= cz && cz <= cl {
            let clip = Vec3 { x: cx as i64, y: cy as i64, z: cz as i64 };
            let vw = viewport.width as i128;
            let vh = viewport.height as i128;
            proof {
                assert(iabs(vw * (cx + fx)) <= 0x4000_0000_0000 * (2 * fx) && iabs(
                    vh * (cy + fx),
                ) <= 0x4000_0000_0000 * (2 * fx)) by (nonlinear_arith)
                    requires
                        0 <= vw <= 0x8000_0000,
                        0 <= vh <= 0x8000_0000,
                        fx == 65536,
                        iabs(cx as int) <= 0x8000_0000,
                        iabs(cy as int) <= 0x8000_0000,
                ;
                lemma_quot_mag_signed(vw * (cx + fx), 2 * fx as int, 0x4000_0000_0000);
                lemma_quot_mag_signed(vh * (cy + fx), 2 * fx as int, 0x4000_0000_0000);
            }
            let sx = div_trunc(vw * (cx + fx), 2 * fx);
            let sy = div_trunc(vh * (cy + fx), 2 * fx);
            let screen = Vec3 { x: sx as i64, y: sy as i64, z: 0 };
            ProjectedPoint { camera: *cam, clip, clip_in_range: true, visible, screen }
        } else {
            ProjectedPoint {
                camera: *cam,
                clip: Vec3 { x: 0, y: 0, z: 0 },
                clip_in_range: false,
                visible,
                screen: Vec3 { x: 0, y: 0, z: 0 },
            }
        }
    } else {
        ProjectedPoint {
            camera: *cam,
            clip: Vec3 { x: 0, y: 0, z: 0 },
            clip_in_range: false,
            visible,
            screen: Vec3 { x: 0, y: 0, z: 0 },
        }
    }
}

/// Projects one world point under the camera pose.
pub fn project(pose: &Pose, params: &CameraParams, viewport: &Viewport, point: &Vec3) -> (r:
    ProjectedPoint)
    requires
        gpose_wf(pose@),
        gparams_wf(params@),
        gview_wf(viewport@),
        gnorm2(point@) <= COORD_LIMIT * COORD_LIMIT,
    ensures
        gprojected_ok(r, gtransform_point(pose@, point@), params@, viewport@),
{
    let cam = pose.transform_point(point);
    project_point(&cam, params, viewport)
}

/// Projects the whole point set, in order.
pub fn project_points(pose: &Pose, params: &CameraParams, viewport: &Viewport, points: &Vec<
    Vec3,
>) -> (r: Vec<ProjectedPoint>)
    requires
        gpose_wf(pose@),
        gparams_wf(params@),
        gview_wf(viewport@),
        forall|i: int|
            0 <= i < points@.len() ==> gnorm2(#[trigger] points@[i]@) <= COORD_LIMIT * COORD_LIMIT,
    ensures
        r@.len() == points@.len(),
        forall|i: int|
            0 <= i < points@.len() ==> gprojected_ok(
                #[trigger] r@[i],
                gtransform_point(pose@, points@[i]@),
                params@,
                viewport@,
            ),
{
    let mut out: Vec<ProjectedPoint> = Vec::new();
    let mut k: usize = 0;
    while k < points.len()
        invariant
            k <= points@.len(),
            out@.len() == k,
            gpose_wf(pose@),
            gparams_wf(params@),
            gview_wf(viewport@),
            forall|i: int|
                0 <= i < points@.len() ==> gnorm2(#[trigger] points@[i]@) <= COORD_LIMIT
                    * COORD_LIMIT,
            forall|i: int|
                0 <= i < k ==> gprojected_ok(
                    #[trigger] out@[i],
                    gtransform_point(pose@, points@[i]@),
                    params@,
                    viewport@,
                ),
        decreases points@.len() - k,
    {
        let pp = project(pose, params, viewport, &points[k]);
        out.push(pp);
        k = k + 1;
    }
    out
}

} // verus!
