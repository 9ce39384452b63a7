//! Special-relativity kinematics in exact fixed-point arithmetic, and the
//! sampling loop that records them.

pub mod arith;
pub mod special;
pub mod metrics;
pub mod session;
