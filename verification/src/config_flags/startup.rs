//! Startup flags: fixed when a registry is created.

use vstd::prelude::*;

verus! {

/// Enable SIMD acceleration for parsing operations
pub const SIMD: u32 = 1 << 0;

/// Enable the thread pool for parallel loading
pub const THREAD_POOL: u32 = 1 << 1;

/// Enable detailed statistics collection
pub const DETAILED_STATS: u32 = 1 << 2;

} // verus!
