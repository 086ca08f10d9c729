use umap_viewer::FP_ONE;
use umap_viewer::fixed::{fp_mul, fp_div, isqrt, abs128, div_trunc};
use umap_viewer::vec3::Vec3;
use umap_viewer::quat::Quat;
use umap_viewer::pose::Pose;
use umap_viewer::projection::{CameraParams, Viewport, aspect_ratio, project, project_point};
use umap_viewer::billboard::{distance_from_camera, billboard_scale};
use umap_viewer::input::{HeldKeys, StepSizes, apply_actions};

fn unit_params() -> CameraParams {
    // fov = pi/2 (tan of half the angle is 1), aspect 1, near 0.001, far 10000
    CameraParams { tan_half_fov: FP_ONE, aspect: FP_ONE, near: 66, far: 10000 * FP_ONE }
}

fn square_viewport() -> Viewport {
    Viewport { width: 800 * FP_ONE, height: 800 * FP_ONE }
}

#[test]
fn fixed_point_basics() {
    assert_eq!(fp_mul(3 * FP_ONE / 2, 2 * FP_ONE), 3 * FP_ONE);
    assert_eq!(fp_mul(-3 * FP_ONE / 2, 2 * FP_ONE), -3 * FP_ONE);
    assert_eq!(fp_div(3 * FP_ONE, 2 * FP_ONE), 3 * FP_ONE / 2);
    assert_eq!(div_trunc(-7, 2), -3);
    assert_eq!(div_trunc(7, -2), -3);
    assert_eq!(abs128(-5), 5);
    assert_eq!(isqrt(0), 0);
    assert_eq!(isqrt(15), 3);
    assert_eq!(isqrt(16), 4);
    assert_eq!(isqrt((1u128 << 64) - 1), (1u64 << 32) - 1);
}

#[test]
fn quaternion_identity_keeps_vectors() {
    let q = Quat::identity();
    let v = Vec3::new(123 * FP_ONE, -45 * FP_ONE, 6789);
    let r = q.rotate(&v);
    assert_eq!(r, v);
    let qq = q.mul(&Quat::identity());
    assert_eq!(qq, Quat::identity());
}

#[test]
fn yaw_quarter_turn_moves_forward_axis() {
    // cos(pi/4) = sin(pi/4) ~ 0.7071 -> 46341 on the fixed-point scale;
    // clamped so that the squared norm stays within the unit bound.
    let c: i64 = 46340;
    let s: i64 = 46340;
    let q = Quat::about_y(c, s);
    let v = Vec3::new(0, 0, -FP_ONE);
    let r = q.rotate(&v);
    // A quarter turn about y sends -z to -x (up to rounding).
    assert!((r.x + FP_ONE).abs() < 200);
    assert_eq!(r.y, 0);
    assert!(r.z.abs() < 200);
}

#[test]
fn scenario_center_point_visible_at_screen_center() {
    // Camera at the origin with identity orientation; point straight ahead.
    let pose = Pose::new(Vec3::zero());
    let params = unit_params();
    let vp = square_viewport();
    let point = Vec3::new(0, 0, -5 * FP_ONE);
    let pp = project(&pose, &params, &vp, &point);
    assert!(pp.visible);
    assert!(pp.clip_in_range);
    assert_eq!(pp.clip.x, 0);
    assert_eq!(pp.clip.y, 0);
    assert_eq!(pp.screen.x, 400 * FP_ONE);
    assert_eq!(pp.screen.y, 400 * FP_ONE);
}

#[test]
fn boundary_clip_coordinates_are_not_visible() {
    let params = unit_params();
    let vp = square_viewport();
    // Exactly on the x = 1 and x = -1 clip boundary: excluded.
    let pp = project_point(&Vec3::new(5 * FP_ONE, 0, -5 * FP_ONE), &params, &vp);
    assert!(!pp.visible);
    assert_eq!(pp.clip.x, FP_ONE);
    let pm = project_point(&Vec3::new(-5 * FP_ONE, 0, -5 * FP_ONE), &params, &vp);
    assert!(!pm.visible);
    // Exactly on the near and far planes: excluded (open interval).
    let pn = project_point(&Vec3::new(0, 0, -66), &params, &vp);
    assert!(!pn.visible);
    let pf = project_point(&Vec3::new(0, 0, -10000 * FP_ONE), &params, &vp);
    assert!(!pf.visible);
    // Just inside all boundaries: visible.
    let pi = project_point(&Vec3::new(5 * FP_ONE - 1, 0, -5 * FP_ONE), &params, &vp);
    assert!(pi.visible);
}

#[test]
fn behind_camera_and_degenerate_viewport_are_not_visible() {
    let vp = square_viewport();
    let behind = project_point(&Vec3::new(0, 0, 5 * FP_ONE), &unit_params(), &vp);
    assert!(!behind.visible);
    let at_camera = project_point(&Vec3::new(0, 0, 0), &unit_params(), &vp);
    assert!(!at_camera.visible);
    // Zero-height viewport: aspect ratio 0, nothing visible.
    assert_eq!(aspect_ratio(800 * FP_ONE, 0), 0);
    let degenerate = CameraParams { tan_half_fov: FP_ONE, aspect: 0, near: 66, far: 10000 * FP_ONE };
    let pd = project_point(&Vec3::new(0, 0, -5 * FP_ONE), &degenerate, &vp);
    assert!(!pd.visible);
}

#[test]
fn visibility_depends_only_on_relative_position() {
    // Identity orientation: translating camera and point together leaves
    // the camera-space position, and so the visibility, unchanged.
    let params = unit_params();
    let vp = square_viewport();
    let pose_a = Pose::new(Vec3::new(0, 0, -5 * FP_ONE));
    let pose_b = Pose::new(Vec3::new(0, 0, -6 * FP_ONE));
    let pa = project(&pose_a, &params, &vp, &Vec3::new(0, 0, 0));
    let pb = project(&pose_b, &params, &vp, &Vec3::new(0, 0, FP_ONE));
    assert_eq!(pa.camera, pb.camera);
    assert_eq!(pa.visible, pb.visible);
    assert!(pa.visible);
}

#[test]
fn screen_round_trip_recovers_clip_coordinate() {
    // Invert the screen mapping of a projected point: the recovered clip
    // coordinate matches the one the projection reported.
    let params = unit_params();
    let vp = square_viewport();
    let pp = project_point(&Vec3::new(2 * FP_ONE, FP_ONE, -5 * FP_ONE), &params, &vp);
    assert!(pp.visible);
    let f = FP_ONE as i128;
    let w = vp.width as i128;
    let back_x = (2 * f * (pp.screen.x as i128)) / w - f;
    // The screen coordinate was itself rounded toward zero, so allow one
    // unit of slack per division.
    assert!((back_x - pp.clip.x as i128).abs() <= 2);
}

#[test]
fn distance_is_euclidean_norm() {
    let d = distance_from_camera(&Vec3::new(3 * FP_ONE, 4 * FP_ONE, 0));
    assert_eq!(d, 5 * FP_ONE);
    let d2 = distance_from_camera(&Vec3::new(0, 0, -7 * FP_ONE));
    assert_eq!(d2, 7 * FP_ONE);
}

#[test]
fn billboard_scale_shrinks_with_distance() {
    let base = FP_ONE;
    let tan = FP_ONE;
    let s1 = billboard_scale(base, tan, FP_ONE);
    let s2 = billboard_scale(base, tan, 2 * FP_ONE);
    let s10 = billboard_scale(base, tan, 10 * FP_ONE);
    assert_eq!(s1, FP_ONE);
    assert_eq!(s2, FP_ONE / 2);
    assert_eq!(s10, 6553);
    assert!(s1 > s2 && s2 > s10);
}

#[test]
fn held_keys_compose_in_the_fixed_order() {
    let steps = StepSizes { turn_cos_half: 60000, turn_sin_half: 26000, move_step: FP_ONE };
    let only_forward = HeldKeys { move_forward: true, ..Default::default() };
    let only_yaw = HeldKeys { look_right: true, ..Default::default() };
    let both = HeldKeys { move_forward: true, look_right: true, ..Default::default() };

    // Move forward, then yaw.
    let mut move_then_yaw = Pose::new(Vec3::zero());
    apply_actions(&mut move_then_yaw, &only_forward, &steps);
    apply_actions(&mut move_then_yaw, &only_yaw, &steps);

    // Yaw, then move forward.
    let mut yaw_then_move = Pose::new(Vec3::zero());
    apply_actions(&mut yaw_then_move, &only_yaw, &steps);
    apply_actions(&mut yaw_then_move, &only_forward, &steps);

    // The two orders disagree: non-commutativity.
    assert_eq!(yaw_then_move.trans.x, 0);
    assert_eq!(move_then_yaw.trans.x, 3_120_000_000 / (FP_ONE));
    assert_ne!(move_then_yaw.trans, yaw_then_move.trans);

    // Holding both keys in one frame applies rotations before moves.
    let mut both_held = Pose::new(Vec3::zero());
    apply_actions(&mut both_held, &both, &steps);
    assert_eq!(both_held, yaw_then_move);
}

#[test]
fn rotation_steps_follow_their_axes() {
    let steps = StepSizes { turn_cos_half: 46340, turn_sin_half: 46340, move_step: 0 };
    // A quarter yaw to the right, then a forward probe point.
    let mut pose = Pose::new(Vec3::zero());
    let yaw = HeldKeys { look_right: true, ..Default::default() };
    apply_actions(&mut pose, &yaw, &steps);
    let cam = pose.transform_point(&Vec3::new(0, 0, -FP_ONE));
    // The world's forward direction now lands to the camera's side.
    assert!(cam.x.abs() > FP_ONE / 2);
    assert!(cam.z.abs() < 200);
}

#[test]
fn aspect_ratio_matches_width_over_height() {
    let a = aspect_ratio(1600 * FP_ONE, 900 * FP_ONE);
    assert_eq!(a, (1600i64 * FP_ONE) / 900);
    assert_eq!(aspect_ratio(800 * FP_ONE, 800 * FP_ONE), FP_ONE);
}

#[test]
fn cube_scene_counts_visible_points() {
    // The original's startup scene: a cube of sixteen points, the camera
    // five units back along z with identity orientation.
    let mut points: Vec<Vec3> = Vec::new();
    for &ux in &[0i64, FP_ONE] {
        for &uy in &[0i64, FP_ONE] {
            for &uz in &[0i64, FP_ONE] {
                points.push(Vec3::new(ux, uy, uz));
            }
        }
    }
    let q = FP_ONE / 4;
    let t = 3 * FP_ONE / 4;
    for &ux in &[q, t] {
        for &uy in &[q, t] {
            for &uz in &[q, t] {
                points.push(Vec3::new(ux, uy, uz));
            }
        }
    }
    assert_eq!(points.len(), 16);
    let pose = Pose::new(Vec3::new(0, 0, -5 * FP_ONE));
    let params = unit_params();
    let vp = square_viewport();
    let projected = umap_viewer::projection::project_points(&pose, &params, &vp, &points);
    assert_eq!(projected.len(), 16);
    // Every cube corner sits in front of the camera, within the frustum.
    for pp in &projected {
        assert!(pp.visible);
        assert!(pp.clip_in_range);
        assert!(pp.camera.z < 0);
    }
}
