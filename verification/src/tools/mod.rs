//! Workloads for measuring the parser: generated justfiles and averages.
pub mod perf_analysis;
pub mod memory_profiler;
