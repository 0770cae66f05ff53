//! Absolute memory statistics and provider errors.

use vstd::prelude::*;

verus! {

/// Absolute memory state in bytes.
#[derive(Debug, Clone, Copy, PartialEq, Eq, Default)]
pub struct MemoryStats {
    /// Total physical memory.
    pub total_bytes: u64,
    /// Memory considered available for new allocations without swapping.
    pub available_bytes: u64,
    /// Bytes currently held in the kernel page cache (Linux: `Buffers + Cached`).
    /// Zero when the underlying source does not report it separately.
    pub page_cache_bytes: u64,
}

/// Error produced by a memory provider.
#[derive(Debug, Clone, PartialEq, Eq)]
pub enum ProviderError {
    /// Underlying source is unavailable, malformed, or inconsistent.
    Source(String),
    /// The provider does not support the requested operation.
    Unsupported,
}

impl ProviderError {
    /// Construct a `Source` error carrying `msg`.
    pub fn new(msg: String) -> (e: Self)
        ensures
            e matches ProviderError::Source(m) && m@ == msg@,
    {
        ProviderError::Source(msg)
    }

    /// The text the error displays: the message of a `Source` error, or a
    /// fixed sentence for `Unsupported`.
    pub fn message(&self) -> (m: String)
        ensures
            m@ == match self {
                ProviderError::Source(s) => s@,
                ProviderError::Unsupported => "memory provider does not support this operation"@,
            },
    {
        match self {
            ProviderError::Source(s) => s.clone(),
            ProviderError::Unsupported => "memory provider does not support this operation".to_owned(),
        }
    }
}

} // verus!
