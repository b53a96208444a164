//! Verified core of a two-rate sensor-fusion pipeline.
//!
//! Two periodic sources sample a signal at different fixed rates; the merger
//! aligns them on the fast stream's timestamps by linear interpolation of the
//! slow stream, and the writer renders each merged record as a CSV row.
//! Values are fixed-point integers with four fractional decimal digits, the
//! precision of the output format; the asynchronous plumbing (channels,
//! timers, cancellation, file I/O) lives outside this crate and drives the
//! state machines defined here.

pub mod interp;
pub mod merger;
pub mod sensor;
pub mod writer;
