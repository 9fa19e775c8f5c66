//! An adaptive internal state engine: a physiological state vector
//! (tension, stability, energy) driven by external disturbances, with
//! plasticity parameters that adapt over time and a dual memory subsystem
//! (raw experience traces and directional bias attractors) that drives
//! autonomous evolution when no external input arrives.
//!
//! All quantities are fixed-point integers: `fixed::UNIT` stands for 1.0.

pub mod bias;
pub mod disturbance;
pub mod fixed;
pub mod isf;
pub mod memory;
