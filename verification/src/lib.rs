//! Memory-aware admission decisions for parallel work pipelines.
//!
//! Pipelines that fan out many memory-hungry tasks can drive a host into swap
//! long before they exhaust their thread pools. An admission gate pauses new
//! admissions when memory usage crosses a threshold and resumes once usage
//! falls back below a hysteresis band; a weighted gate budgets the bytes that
//! tasks declare against the memory the host reports as available.
//!
//! This crate holds what such gates decide and read:
//!
//! - [`admission`]: the unweighted gate's decisions (throttling with
//!   hysteresis, fallback on provider failure, permit counting);
//! - [`weighted`]: the weighted gate's decisions (byte budget, safety
//!   reserve, oversized permits that run alone, statistics caching);
//! - [`providers`]: parsing of `/proc/meminfo` and cgroup-v2 accounting
//!   files, and the statistics the built-in providers derive;
//! - [`provider`]: absolute memory statistics and provider errors;
//! - [`text`]: the character-level specifications the parsers are stated in.

pub mod admission;
pub mod provider;
pub mod providers;
pub mod text;
pub mod weighted;

pub use provider::{MemoryStats, ProviderError};
