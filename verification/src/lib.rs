//! A windowed performance/power/accuracy monitoring engine.
//!
//! An instrumented application calls `heartbeat` once per unit of recurring
//! work, reporting how much work was done over what wall-clock interval and,
//! optionally, at what energy cost and with what accuracy. The monitor
//! derives three classes of rate for each tracked quantity (global since
//! creation, over the current window of samples, and instantaneous for the
//! last sample), records each sample in a fixed-capacity circular buffer,
//! and reports every completed window to an optional callback.
//!
//! Rates are kept as exact rational numbers (an amount over an elapsed
//! time), so the engine itself never divides and a sample with a zero time
//! interval is recorded faithfully rather than trapping; callers that want
//! a floating-point figure divide the two components themselves.

pub mod arith;
pub mod record;
pub mod monitor;
pub mod simple;
pub mod laws;
pub mod logfmt;
