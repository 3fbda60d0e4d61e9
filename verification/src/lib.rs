//! Core engine of a network speed and diagnostics meter.
//!
//! The crate models measurements as fixed-point integers (thousandths of a
//! unit: milliseconds for latency, bits per second for throughput), reduces
//! raw probe outcomes to per-kind metric summaries, applies threshold rules
//! to produce issues and recommendations, and tracks a concurrency-bounded,
//! cancellable probe schedule. All I/O (the probes themselves, the clock,
//! printing) stays outside this crate; callers hand in plain values.

pub mod aggregate;
pub mod analyze;
pub mod model;
pub mod numeric;
pub mod report;
pub mod schedule;
pub mod speed;
pub mod text;
