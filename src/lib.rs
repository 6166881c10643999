//! A sampled PID controller with set-point weighting, a filtered derivative,
//! output saturation and back-calculation anti-windup, and a gravity-drained
//! tank to close the loop around it.
//!
//! All signals are fixed-point numbers: an `i64` counts units of 10^-12 (see
//! [`fixed::ONE`]). Every product and quotient rounds toward negative
//! infinity, and every operation that would leave the `i64` range is reported
//! instead of wrapping.
pub mod fixed;
pub mod controller;
pub mod process;

pub use fixed::{ONE, Overflow};
pub use controller::{PID, Parameters, Coefficients, States, Signals, ConfigError};
pub use process::WaterTank;
