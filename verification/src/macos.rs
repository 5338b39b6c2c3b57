//! macOS signal sources and scoring.
//!
//! macOS exposes its counters through command-line tools — `top`, `sysctl`,
//! `vm_stat`, `netstat`, `ps` and `lsof`; `metrics` parses their output into
//! normalized fixed-point ratios, and `calculator` reduces the ratios to a
//! power reserve level.

pub mod calculator;
pub mod metrics;
