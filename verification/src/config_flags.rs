//! Configuration flags: startup flags fixed at registry creation, runtime
//! flags that can be switched while the registry is in use, and verbosity
//! levels.

use vstd::prelude::*;
use crate::format::{decimal, hex_upper, decimal_text, hex_text};
use crate::text::concat;

pub mod runtime;
pub mod startup;
pub mod verbosity;

verus! {

/// Verbosity levels for debug output.
#[derive(Debug, Clone, Copy, PartialEq, Eq, Structural)]
pub enum VerbosityLevel {
    /// No debug output (`none`)
    Disabled,
    /// Warnings and errors only
    Warn,
    /// Debug information
    Debug,
    /// Full trace output
    Trace,
}

/// The number of a verbosity level.
pub open spec fn level_number(level: VerbosityLevel) -> u8 {
    match level {
        VerbosityLevel::Disabled => verbosity::NONE,
        VerbosityLevel::Warn => verbosity::WARN,
        VerbosityLevel::Debug => verbosity::DEBUG,
        VerbosityLevel::Trace => verbosity::TRACE,
    }
}

/// The level of a number: 1 to 3 name a level, every other number means none.
pub open spec fn level_of_number(value: u8) -> VerbosityLevel {
    if value == verbosity::WARN {
        VerbosityLevel::Warn
    } else if value == verbosity::DEBUG {
        VerbosityLevel::Debug
    } else if value == verbosity::TRACE {
        VerbosityLevel::Trace
    } else {
        VerbosityLevel::Disabled
    }
}

impl VerbosityLevel {
    /// The name of the level: `none`, `warn`, `debug` or `trace`.
    pub fn name(&self) -> (r: &'static str)
        ensures
            *self is Disabled ==> r@ == "none"@,
            *self is Warn ==> r@ == "warn"@,
            *self is Debug ==> r@ == "debug"@,
            *self is Trace ==> r@ == "trace"@,
    {
        match self {
            VerbosityLevel::Disabled => "none",
            VerbosityLevel::Warn => "warn",
            VerbosityLevel::Debug => "debug",
            VerbosityLevel::Trace => "trace",
        }
    }
}

impl From<u8> for VerbosityLevel {
    fn from(value: u8) -> (r: Self) {
        if value == verbosity::WARN {
            VerbosityLevel::Warn
        } else if value == verbosity::DEBUG {
            VerbosityLevel::Debug
        } else if value == verbosity::TRACE {
            VerbosityLevel::Trace
        } else {
            VerbosityLevel::Disabled
        }
    }
}

impl vstd::std_specs::convert::FromSpecImpl<u8> for VerbosityLevel {
    open spec fn obeys_from_spec() -> bool {
        true
    }

    open spec fn from_spec(value: u8) -> VerbosityLevel {
        level_of_number(value)
    }
}

impl From<VerbosityLevel> for u8 {
    fn from(level: VerbosityLevel) -> (r: Self) {
        match level {
            VerbosityLevel::Disabled => verbosity::NONE,
            VerbosityLevel::Warn => verbosity::WARN,
            VerbosityLevel::Debug => verbosity::DEBUG,
            VerbosityLevel::Trace => verbosity::TRACE,
        }
    }
}

impl vstd::std_specs::convert::FromSpecImpl<VerbosityLevel> for u8 {
    open spec fn obeys_from_spec() -> bool {
        true
    }

    open spec fn from_spec(level: VerbosityLevel) -> u8 {
        level_number(level)
    }
}

/// Converting a level to its number and back gives the level; a number of a
/// level converts to that level and back to itself.
pub proof fn law_level_number_round_trip(level: VerbosityLevel, value: u8)
    ensures
        level_of_number(level_number(level)) == level,
        value <= verbosity::TRACE ==> level_number(level_of_number(value)) == value,
        value > verbosity::TRACE ==> level_of_number(value) == VerbosityLevel::Disabled,
{
}

/// Whether every bit of `flags` names a runtime flag.
pub open spec fn runtime_flags_known(flags: u64) -> bool {
    flags & !runtime::ALL == 0
}

/// Whether every bit of `flags` names a runtime flag.
pub fn is_valid_runtime_flag(flags: u64) -> (r: bool)
    ensures
        r == runtime_flags_known(flags),
{
    flags & !runtime::ALL == 0
}

/// Errors of flag operations.
#[derive(Debug, Clone, Copy, PartialEq, Eq, Structural)]
pub enum FlagError {
    /// Startup flags cannot change after the registry is created
    ImmutableStartupFlag,
    /// A verbosity level outside 0-3
    InvalidVerbosity { level: u8 },
    /// An unknown runtime flag value
    InvalidRuntimeFlag { flag: u64 },
    /// An unknown startup flag value
    InvalidStartupFlag { flag: u32 },
}

/// The message a flag error reads as.
pub open spec fn flag_error_message(e: FlagError) -> Seq<char> {
    match e {
        FlagError::ImmutableStartupFlag =>
            "Cannot modify startup flags at runtime - they are immutable after registry creation"@,
        FlagError::InvalidVerbosity { level } =>
            "Invalid verbosity level: "@ + decimal(level as nat) + " (valid range: 0-3)"@,
        FlagError::InvalidRuntimeFlag { flag } => "Invalid runtime flag value: 0x"@ + hex_upper(flag as nat),
        FlagError::InvalidStartupFlag { flag } => "Invalid startup flag value: 0x"@ + hex_upper(flag as nat),
    }
}

impl FlagError {
    /// The message the error reads as.
    pub fn message(&self) -> (r: String)
        ensures
            r@ == flag_error_message(*self),
    {
        match self {
            FlagError::ImmutableStartupFlag => {
                "Cannot modify startup flags at runtime - they are immutable after registry creation".to_owned()
            },
            FlagError::InvalidVerbosity { level } => {
                let a = concat("Invalid verbosity level: ", decimal_text(*level as u64).as_str());
                concat(a.as_str(), " (valid range: 0-3)")
            },
            FlagError::InvalidRuntimeFlag { flag } => concat("Invalid runtime flag value: 0x", hex_text(*flag).as_str()),
            FlagError::InvalidStartupFlag { flag } => {
                concat("Invalid startup flag value: 0x", hex_text(*flag as u64).as_str())
            },
        }
    }
}

} // verus!
