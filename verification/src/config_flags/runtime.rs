//! Runtime flags: can be switched on and off while a registry is in use.

use vstd::prelude::*;

verus! {

/// Enable array merging
pub const ARRAY_MERGE: u64 = 1 << 0;

/// Enable parallel processing
pub const PARALLEL: u64 = 1 << 1;

/// Enable strict validation mode
pub const STRICT_MODE: u64 = 1 << 2;

/// Enable environment variable expansion
pub const ENV_EXPANSION: u64 = 1 << 3;

/// Enable format fallback
pub const FORMAT_FALLBACK: u64 = 1 << 4;

/// Every runtime flag together
pub const ALL: u64 = ARRAY_MERGE | PARALLEL | STRICT_MODE | ENV_EXPANSION | FORMAT_FALLBACK;

} // verus!
