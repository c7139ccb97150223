//! Diagnostics.
pub mod memory_profiler;
