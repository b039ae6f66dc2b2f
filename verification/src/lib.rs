//! Camera-control components for a look-at camera: a pose smoother and a
//! yaw/pitch angle pair with gimbal-lock avoidance, together with the pure
//! decision logic of a first-person controller (input mapping, cursor-lock
//! state, camera selection).  All arithmetic is fixed-point over `i64` with
//! sixteen fractional bits, so every function carries a proved contract.

pub mod fixed;
pub mod angle;
pub mod trig;
pub mod vec3;
pub mod look_transform;
pub mod look_angles;
pub mod smoother;
pub mod controller;
