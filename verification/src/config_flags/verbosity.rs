//! Verbosity levels as numbers.

use vstd::prelude::*;

verus! {

/// No debug output (default)
pub const NONE: u8 = 0;

/// Warnings and errors only
pub const WARN: u8 = 1;

/// Debug information
pub const DEBUG: u8 = 2;

/// Full trace output
pub const TRACE: u8 = 3;

} // verus!
