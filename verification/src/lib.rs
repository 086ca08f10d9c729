//! A point-cloud billboard viewer's math core.
//!
//! The viewer projects a fixed set of 3-D points onto a 2-D viewport
//! through a perspective camera and draws a distance-scaled image at each
//! visible point's screen position.  This crate holds the verified heart
//! of that pipeline: the rigid-body camera pose (a rotation quaternion
//! plus a translation, composed on the left so movement acts in the
//! camera's local frame), the keyboard-driven input mapper with its fixed
//! composition order, the perspective projection with its exact
//! open-interval visibility test, the screen mapping, and the
//! distance-based billboard scale.  All values live on a single
//! fixed-point scale; every function's contract states the exact integer
//! it computes, and the central invariants — rotations stay within the
//! unit norm bound, rotating a vector never enlarges its norm — are
//! proved against the truncating arithmetic itself.

pub mod fixed;
pub mod vec3;
pub mod quat;
pub mod pose;
pub mod projection;
pub mod billboard;
pub mod input;

pub use fixed::FP_ONE;
