//! Summary statistics over latency measurements held as fixed-point integers.
//!
//! Samples are latencies in a fixed-point unit chosen by the caller (for
//! example micro-milliseconds); every statistic is computed exactly over the
//! integers, so each result carries a contract that pins it down: the mean is
//! returned as an exact rational, the order statistics are elements of the
//! sorted copy of the input, and the jitter is the integer part of the sample
//! standard deviation.

pub mod laws;
pub mod metrics;
pub mod model;
pub mod stats;

mod isqrt;
mod sorting;
