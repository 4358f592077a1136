//! Process telemetry and control for a single Unix host.
//!
//! The crate samples the per-process counters that the kernel exposes,
//! turns two time-separated CPU-tick readings into an instantaneous
//! usage fraction, and offers control primitives (signal delivery and
//! CPU-affinity binding) whose failures are reported, never fatal.

pub mod parse;
pub mod usage;
pub mod sampler;
pub mod control;
pub mod osapi;
