//! Motion-control core for a differential-drive competition robot:
//! a composable path-segment engine, a dead-reckoning pose estimator,
//! a Ramsete-style trajectory controller and a heading PID.
//!
//! All physical quantities are fixed-point integers:
//! - distances and positions in millimetres,
//! - angles in millidegrees (1 degree = 1000),
//! - motor powers in thousandths of full scale (1000 = 1.0),
//! - time in milliseconds on a monotonic clock that callers thread
//!   through every call, which keeps the library deterministic.
//!
//! The hardware link that carries sensor and command packets lives
//! outside this crate; the library reads and writes plain-value packet
//! models (`packet`) that the surrounding loop translates.

pub mod latch;
pub mod modifier_path;
pub mod num;
pub mod odometry;
pub mod packet;
pub mod path;
pub mod pid;
pub mod ramsete;
pub mod shaking_motor;
pub mod trig;
pub mod vec2;
