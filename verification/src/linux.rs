//! Linux signal sources and scoring.
//!
//! Linux exposes its counters through the `/proc` pseudo-filesystem and a
//! few command-line tools; `metrics` parses that text into normalized
//! fixed-point ratios, and `calculator` reduces the ratios to a power
//! reserve level.

pub mod calculator;
pub mod metrics;
