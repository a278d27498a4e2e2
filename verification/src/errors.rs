//! Error types of the registry: a portable error record with a code and a
//! timestamp, the registry's own errors, and errors collected by fluent
//! operations.

use vstd::prelude::*;
use crate::config_flags::{FlagError, flag_error_message};
use crate::format::{decimal, hex_upper, decimal_text, hex_text};
use crate::text::concat;

verus! {

/// Unique identifier for configuration handles
pub type HandleId = u64;

/// Error code for invalid runtime flag values
pub const ERROR_INVALID_RUNTIME_FLAG: u32 = 1001;
/// Error code for invalid startup flag values
pub const ERROR_INVALID_STARTUP_FLAG: u32 = 1002;
/// Error code for invalid verbosity levels
pub const ERROR_INVALID_VERBOSITY: u32 = 1003;
/// Error code for attempting to modify immutable startup flags
pub const ERROR_IMMUTABLE_STARTUP_FLAG: u32 = 1004;
/// Error code for a handle that is not in the registry
pub const ERROR_HANDLE_NOT_FOUND: u32 = 1101;
/// Error code for handle type mismatches
pub const ERROR_WRONG_TYPE: u32 = 1102;
/// Error code for invalidated handles
pub const ERROR_INVALID_HANDLE: u32 = 1103;
/// Error code for a registry at capacity
pub const ERROR_REGISTRY_FULL: u32 = 1201;
/// Error code for serialization failures
pub const ERROR_SERIALIZATION: u32 = 1202;

/// A point in time of the system clock.
#[verifier::external_type_specification]
#[verifier::external_body]
pub struct ExSystemTime(std::time::SystemTime);

/// The error of a clock reading earlier than the reference point.
#[verifier::external_type_specification]
#[verifier::external_body]
pub struct ExSystemTimeError(std::time::SystemTimeError);

/// The current time, `SystemTime::now()`. Nothing is stated: it reads the
/// clock.
#[verifier::external_body]
fn clock_now() -> std::time::SystemTime {
    std::time::SystemTime::now()
}

/// The time elapsed from the Unix epoch to `t`, `t.duration_since(UNIX_EPOCH)`.
/// Nothing is stated about the duration.
#[verifier::external_body]
fn since_unix_epoch(t: &std::time::SystemTime) -> Result<std::time::Duration, std::time::SystemTimeError> {
    t.duration_since(std::time::UNIX_EPOCH)
}

/// Whole milliseconds of a duration, `Duration::as_millis`. Nothing is stated
/// about the value.
#[verifier::external_body]
fn whole_millis(d: &std::time::Duration) -> u128 {
    d.as_millis()
}

/// A timestamp in milliseconds from the time elapsed since the Unix epoch:
/// the whole milliseconds truncated to 64 bits, or 0 when the clock read
/// earlier than the epoch (`None`).
pub open spec fn timestamp_of(elapsed_millis: Option<u128>) -> u64 {
    match elapsed_millis {
        Some(ms) => (ms % 0x1_0000_0000_0000_0000) as u64,
        None => 0,
    }
}

/// The timestamp of `elapsed_millis` (see `timestamp_of`).
pub fn timestamp_from(elapsed_millis: Option<u128>) -> (r: u64)
    ensures
        r == timestamp_of(elapsed_millis),
{
    match elapsed_millis {
        Some(ms) => (ms % 0x1_0000_0000_0000_0000u128) as u64,
        None => 0,
    }
}

/// Milliseconds since the Unix epoch now (see `timestamp_of`). Nothing is
/// known of the value: it reads the clock.
fn timestamp_millis() -> u64 {
    let now = clock_now();
    let elapsed: Option<u128> = match since_unix_epoch(&now) {
        Ok(d) => Some(whole_millis(&d)),
        Err(_) => None,
    };
    timestamp_from(elapsed)
}

/// Portable error record with a code, a message, a context and the time at
/// which it was made.
#[derive(Debug)]
pub struct SuperConfigError {
    /// Error code for programmatic handling (see the error code constants)
    pub code: u32,
    /// Human-readable error message
    pub message: String,
    /// Additional context (operation name, parameters, etc.)
    pub context: String,
    /// Unix timestamp in milliseconds when the error was made
    pub timestamp: u64,
}

impl SuperConfigError {
    /// An error with the current time as its timestamp.
    pub fn new(code: u32, message: &str, context: &str) -> (r: SuperConfigError)
        ensures
            r.code == code,
            r.message@ == message@,
            r.context@ == context@,
    {
        Self::new_at(code, message, context, timestamp_millis())
    }

    /// An error made at `timestamp` (milliseconds since the Unix epoch).
    pub fn new_at(code: u32, message: &str, context: &str, timestamp: u64) -> (r: SuperConfigError)
        ensures
            r.code == code,
            r.message@ == message@,
            r.context@ == context@,
            r.timestamp == timestamp,
    {
        SuperConfigError { code, message: message.to_owned(), context: context.to_owned(), timestamp }
    }

    /// The error for invalid runtime flags.
    pub fn invalid_runtime_flag(flags: u64) -> (r: SuperConfigError)
        ensures
            r.code == ERROR_INVALID_RUNTIME_FLAG,
            r.message@ == "Invalid runtime flag value"@,
            r.context@ == "flags: 0x"@ + hex_upper(flags as nat),
    {
        let context = concat("flags: 0x", hex_text(flags).as_str());
        Self::new(ERROR_INVALID_RUNTIME_FLAG, "Invalid runtime flag value", context.as_str())
    }

    /// The error for invalid startup flags.
    pub fn invalid_startup_flag(flags: u32) -> (r: SuperConfigError)
        ensures
            r.code == ERROR_INVALID_STARTUP_FLAG,
            r.message@ == "Invalid startup flag value"@,
            r.context@ == "flags: 0x"@ + hex_upper(flags as nat),
    {
        let context = concat("flags: 0x", hex_text(flags as u64).as_str());
        Self::new(ERROR_INVALID_STARTUP_FLAG, "Invalid startup flag value", context.as_str())
    }

    /// The error for a handle that is not in the registry.
    pub fn handle_not_found(handle_id: HandleId) -> (r: SuperConfigError)
        ensures
            r.code == ERROR_HANDLE_NOT_FOUND,
            r.message@ == "Handle not found in registry"@,
            r.context@ == "handle_id: "@ + decimal(handle_id as nat),
    {
        let context = concat("handle_id: ", decimal_text(handle_id).as_str());
        Self::new(ERROR_HANDLE_NOT_FOUND, "Handle not found in registry", context.as_str())
    }

    /// The error for a handle of the wrong type.
    pub fn wrong_type(handle_id: HandleId, expected: &str, found: &str) -> (r: SuperConfigError)
        ensures
            r.code == ERROR_WRONG_TYPE,
            r.message@ == "Handle has wrong type"@,
            r.context@ == "handle_id: "@ + decimal(handle_id as nat) + ", expected: "@ + expected@
                + ", found: "@ + found@,
    {
        let a = concat("handle_id: ", decimal_text(handle_id).as_str());
        let b = concat(a.as_str(), ", expected: ");
        let c = concat(b.as_str(), expected);
        let d = concat(c.as_str(), ", found: ");
        let context = concat(d.as_str(), found);
        Self::new(ERROR_WRONG_TYPE, "Handle has wrong type", context.as_str())
    }

    /// The error as text: `[timestamp] Error code: message - context`.
    pub fn display(&self) -> (r: String)
        ensures
            r@ == "["@ + decimal(self.timestamp as nat) + "] Error "@ + decimal(self.code as nat) + ": "@
                + self.message@ + " - "@ + self.context@,
    {
        let a = concat("[", decimal_text(self.timestamp).as_str());
        let b = concat(a.as_str(), "] Error ");
        let c = concat(b.as_str(), decimal_text(self.code as u64).as_str());
        let d = concat(c.as_str(), ": ");
        let e = concat(d.as_str(), self.message.as_str());
        let f = concat(e.as_str(), " - ");
        concat(f.as_str(), self.context.as_str())
    }

    /// A copy of the error, timestamp included.
    pub fn duplicate(&self) -> (r: SuperConfigError)
        ensures
            r.code == self.code,
            r.message@ == self.message@,
            r.context@ == self.context@,
            r.timestamp == self.timestamp,
    {
        SuperConfigError {
            code: self.code,
            message: self.message.as_str().to_owned(),
            context: self.context.as_str().to_owned(),
            timestamp: self.timestamp,
        }
    }
}

/// Errors of registry operations.
#[derive(Debug)]
pub enum RegistryError {
    /// The handle is not in the registry
    HandleNotFound { handle_id: HandleId },
    /// The handle's data has another type than the one asked for
    WrongType { handle_id: HandleId, expected: String, found: String },
    /// The handle has been invalidated
    InvalidHandle { handle_id: HandleId },
    /// The registry is at capacity
    RegistryFull,
    /// Serializing data failed
    SerializationError { message: String },
    /// A flag operation failed
    FlagError(FlagError),
}

/// The message a registry error reads as.
pub open spec fn registry_error_message(e: RegistryError) -> Seq<char> {
    match e {
        RegistryError::HandleNotFound { handle_id } => "Handle "@ + decimal(handle_id as nat) + " not found in registry"@,
        RegistryError::WrongType { handle_id, expected, found } => "Handle "@ + decimal(handle_id as nat)
            + " has wrong type: expected "@ + expected@ + ", found "@ + found@,
        RegistryError::InvalidHandle { handle_id } => "Handle "@ + decimal(handle_id as nat) + " has been invalidated"@,
        RegistryError::RegistryFull => "Registry is at maximum capacity"@,
        RegistryError::SerializationError { message } => "Serialization error: "@ + message@,
        RegistryError::FlagError(f) => "Flag operation failed: "@ + flag_error_message(f),
    }
}

impl RegistryError {
    /// The message the error reads as.
    pub fn message(&self) -> (r: String)
        ensures
            r@ == registry_error_message(*self),
    {
        match self {
            RegistryError::HandleNotFound { handle_id } => {
                let a = concat("Handle ", decimal_text(*handle_id).as_str());
                concat(a.as_str(), " not found in registry")
            },
            RegistryError::WrongType { handle_id, expected, found } => {
                let a = concat("Handle ", decimal_text(*handle_id).as_str());
                let b = concat(a.as_str(), " has wrong type: expected ");
                let c = concat(b.as_str(), expected.as_str());
                let d = concat(c.as_str(), ", found ");
                concat(d.as_str(), found.as_str())
            },
            RegistryError::InvalidHandle { handle_id } => {
                let a = concat("Handle ", decimal_text(*handle_id).as_str());
                concat(a.as_str(), " has been invalidated")
            },
            RegistryError::RegistryFull => "Registry is at maximum capacity".to_owned(),
            RegistryError::SerializationError { message } => concat("Serialization error: ", message.as_str()),
            RegistryError::FlagError(f) => concat("Flag operation failed: ", f.message().as_str()),
        }
    }
}

impl From<FlagError> for RegistryError {
    fn from(e: FlagError) -> (r: Self) {
        RegistryError::FlagError(e)
    }
}

impl vstd::std_specs::convert::FromSpecImpl<FlagError> for RegistryError {
    open spec fn obeys_from_spec() -> bool {
        true
    }

    open spec fn from_spec(e: FlagError) -> RegistryError {
        RegistryError::FlagError(e)
    }
}

/// An error collected by a fluent operation, with the operation's name.
#[derive(Debug)]
pub struct FluentError {
    /// The underlying error
    pub error: SuperConfigError,
    /// Which operation caused this error (e.g. "enable", "disable")
    pub operation: String,
}

/// The code, message and context that a registry error becomes.
pub open spec fn registry_error_record(e: RegistryError) -> (u32, Seq<char>, Seq<char>) {
    match e {
        RegistryError::HandleNotFound { handle_id } => (
            ERROR_HANDLE_NOT_FOUND,
            "Handle not found in registry"@,
            "handle_id: "@ + decimal(handle_id as nat),
        ),
        RegistryError::WrongType { handle_id, expected, found } => (
            ERROR_WRONG_TYPE,
            "Handle has wrong type"@,
            "handle_id: "@ + decimal(handle_id as nat) + ", expected: "@ + expected@ + ", found: "@ + found@,
        ),
        RegistryError::InvalidHandle { handle_id } => (
            ERROR_INVALID_HANDLE,
            "Handle has been invalidated"@,
            "handle_id: "@ + decimal(handle_id as nat),
        ),
        RegistryError::RegistryFull => (ERROR_REGISTRY_FULL, "Registry is at maximum capacity"@, Seq::empty()),
        RegistryError::SerializationError { message } => (ERROR_SERIALIZATION, "Serialization error"@, message@),
        RegistryError::FlagError(f) => flag_error_record(f),
    }
}

/// The code, message and context that a flag error becomes.
pub open spec fn flag_error_record(f: FlagError) -> (u32, Seq<char>, Seq<char>) {
    match f {
        FlagError::ImmutableStartupFlag => (
            ERROR_IMMUTABLE_STARTUP_FLAG,
            "Cannot modify startup flags at runtime"@,
            Seq::empty(),
        ),
        FlagError::InvalidVerbosity { level } => (
            ERROR_INVALID_VERBOSITY,
            "Invalid verbosity level"@,
            "level: "@ + decimal(level as nat) + " (valid range: 0-3)"@,
        ),
        FlagError::InvalidRuntimeFlag { flag } => (
            ERROR_INVALID_RUNTIME_FLAG,
            "Invalid runtime flag value"@,
            "flags: 0x"@ + hex_upper(flag as nat),
        ),
        FlagError::InvalidStartupFlag { flag } => (
            ERROR_INVALID_STARTUP_FLAG,
            "Invalid startup flag value"@,
            "flags: 0x"@ + hex_upper(flag as nat),
        ),
    }
}

/// Whether `e` carries the code, message and context `rec`.
/// Whether two fluent errors carry the same code, message, context, time and
/// operation.
pub open spec fn same_error(a: FluentError, b: FluentError) -> bool {
    &&& a.error.code == b.error.code
    &&& a.error.message@ == b.error.message@
    &&& a.error.context@ == b.error.context@
    &&& a.error.timestamp == b.error.timestamp
    &&& a.operation@ == b.operation@
}

pub open spec fn has_record(e: SuperConfigError, rec: (u32, Seq<char>, Seq<char>)) -> bool {
    e.code == rec.0 && e.message@ == rec.1 && e.context@ == rec.2
}

impl FluentError {
    /// An error of the operation `operation`.
    pub fn new(error: SuperConfigError, operation: &str) -> (r: FluentError)
        ensures
            r.error == error,
            r.operation@ == operation@,
    {
        FluentError { error, operation: operation.to_owned() }
    }

    /// The error record of a registry error, for the operation `operation`.
    pub fn from_registry_error(error: RegistryError, operation: &str) -> (r: FluentError)
        ensures
            has_record(r.error, registry_error_record(error)),
            r.operation@ == operation@,
    {
        let super_error = match error {
            RegistryError::HandleNotFound { handle_id } => SuperConfigError::handle_not_found(handle_id),
            RegistryError::WrongType { handle_id, expected, found } => {
                SuperConfigError::wrong_type(handle_id, expected.as_str(), found.as_str())
            },
            RegistryError::InvalidHandle { handle_id } => {
                let context = concat("handle_id: ", decimal_text(handle_id).as_str());
                SuperConfigError::new(ERROR_INVALID_HANDLE, "Handle has been invalidated", context.as_str())
            },
            RegistryError::RegistryFull => {
                let r = SuperConfigError::new(ERROR_REGISTRY_FULL, "Registry is at maximum capacity", "");
                proof {
                    reveal_strlit("");
                    assert(""@ =~= Seq::<char>::empty());
                }
                r
            },
            RegistryError::SerializationError { message } => {
                SuperConfigError::new(ERROR_SERIALIZATION, "Serialization error", message.as_str())
            },
            RegistryError::FlagError(flag_error) => Self::convert_flag_error(&flag_error),
        };
        Self::new(super_error, operation)
    }

    /// The error record of a flag error.
    pub fn convert_flag_error(flag_error: &FlagError) -> (r: SuperConfigError)
        ensures
            has_record(r, flag_error_record(*flag_error)),
    {
        match flag_error {
            FlagError::ImmutableStartupFlag => {
                let r = SuperConfigError::new(
                    ERROR_IMMUTABLE_STARTUP_FLAG,
                    "Cannot modify startup flags at runtime",
                    "",
                );
                proof {
                    reveal_strlit("");
                    assert(""@ =~= Seq::<char>::empty());
                }
                r
            },
            FlagError::InvalidVerbosity { level } => {
                let a = concat("level: ", decimal_text(*level as u64).as_str());
                let context = concat(a.as_str(), " (valid range: 0-3)");
                SuperConfigError::new(ERROR_INVALID_VERBOSITY, "Invalid verbosity level", context.as_str())
            },
            FlagError::InvalidRuntimeFlag { flag } => SuperConfigError::invalid_runtime_flag(*flag),
            FlagError::InvalidStartupFlag { flag } => SuperConfigError::invalid_startup_flag(*flag),
        }
    }

    /// The error as text: `Operation 'operation' failed: <error>`.
    pub fn display(&self) -> (r: String)
        ensures
            r@ == "Operation '"@ + self.operation@ + "' failed: "@ + "["@ + decimal(self.error.timestamp as nat)
                + "] Error "@ + decimal(self.error.code as nat) + ": "@ + self.error.message@ + " - "@
                + self.error.context@,
    {
        let a = concat("Operation '", self.operation.as_str());
        let b = concat(a.as_str(), "' failed: ");
        concat(b.as_str(), self.error.display().as_str())
    }

    /// A copy of the error.
    pub fn duplicate(&self) -> (r: FluentError)
        ensures
            same_error(r, *self),
    {
        FluentError { error: self.error.duplicate(), operation: self.operation.as_str().to_owned() }
    }
}

} // verus!
