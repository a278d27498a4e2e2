//! Verbosity levels and the debug messages collected while configuration
//! is loaded, in the manner of `-v`, `-vv` and `-vvv` of command-line tools.

use vstd::prelude::*;
use crate::format::{decimal, decimal_text};
use crate::text::concat;

verus! {

/// No debug output (default behavior)
pub const SILENT: u8 = 0;

/// Basic configuration loading progress (-v)
pub const INFO: u8 = 1;

/// Detailed step-by-step information (-vv)
pub const DEBUG: u8 = 2;

/// Full introspection with configuration values (-vvv)
pub const TRACE: u8 = 3;

/// Verbosity levels, from silent to full tracing.
#[derive(Debug, Clone, Copy, PartialEq, Eq, Structural)]
pub enum VerbosityLevel {
    /// No debug output
    Silent,
    /// Basic loading progress
    Info,
    /// Detailed steps with success and failure indicators
    Debug,
    /// Full introspection with configuration values
    Trace,
}

/// The level of a count of `-v` flags, capped at tracing.
pub open spec fn level_of_count(count: u8) -> VerbosityLevel {
    if count == 0 {
        VerbosityLevel::Silent
    } else if count == 1 {
        VerbosityLevel::Info
    } else if count == 2 {
        VerbosityLevel::Debug
    } else {
        VerbosityLevel::Trace
    }
}

impl VerbosityLevel {
    /// The level for `count` repetitions of `-v`: none is silent, three or
    /// more is tracing.
    pub fn from_cli_args(count: u8) -> (r: VerbosityLevel)
        ensures
            r == level_of_count(count),
    {
        if count == 0 {
            VerbosityLevel::Silent
        } else if count == 1 {
            VerbosityLevel::Info
        } else if count == 2 {
            VerbosityLevel::Debug
        } else {
            VerbosityLevel::Trace
        }
    }

    /// The number of the level, 0 to 3.
    pub fn as_u8(&self) -> (r: u8)
        ensures
            level_of_count(r) == *self,
            r <= TRACE,
    {
        match self {
            VerbosityLevel::Silent => SILENT,
            VerbosityLevel::Info => INFO,
            VerbosityLevel::Debug => DEBUG,
            VerbosityLevel::Trace => TRACE,
        }
    }
}

/// A point in time of the monotonic clock.
#[verifier::external_type_specification]
#[verifier::external_body]
pub struct ExInstant(std::time::Instant);

/// The current instant, `Instant::now()`. Nothing is stated: it reads the
/// clock.
#[verifier::external_body]
fn instant_now() -> std::time::Instant {
    std::time::Instant::now()
}

/// A debug message collected while configuration is loaded.
#[derive(Debug)]
pub struct DebugMessage {
    /// Verbosity level of this message
    pub level: u8,
    /// Provider or component that generated this message
    pub provider: String,
    /// The actual debug message
    pub message: String,
    /// When the message was made
    pub timestamp: std::time::Instant,
    /// Optional step number for ordered operations
    pub step: Option<usize>,
    /// Optional success or failure indication
    pub success: Option<bool>,
}

/// The text of a message: `CONFIG: ` unless silent, then `[step/] ` when
/// there is a step, the message, then ` ✓` or ` ✗` for success or failure.
pub open spec fn message_text(level: u8, step: Option<usize>, message: Seq<char>, success: Option<bool>) -> Seq<char> {
    let prefix = if level == SILENT { Seq::empty() } else { "CONFIG: "@ };
    let step_prefix = match step {
        Some(s) => "["@ + decimal(s as nat) + "/] "@,
        None => Seq::empty(),
    };
    let suffix = match success {
        Some(true) => " ✓"@,
        Some(false) => " ✗"@,
        None => Seq::empty(),
    };
    prefix + step_prefix + message + suffix
}

impl DebugMessage {
    /// A message with no step and no outcome.
    pub fn new(level: u8, provider: &str, message: &str) -> (r: DebugMessage)
        ensures
            r.level == level,
            r.provider@ == provider@,
            r.message@ == message@,
            r.step is None,
            r.success is None,
    {
        Self::new_at(level, provider, message, instant_now())
    }

    /// A message made at `timestamp`, with no step and no outcome.
    pub fn new_at(level: u8, provider: &str, message: &str, timestamp: std::time::Instant) -> (r: DebugMessage)
        ensures
            r.level == level,
            r.provider@ == provider@,
            r.message@ == message@,
            r.timestamp == timestamp,
            r.step is None,
            r.success is None,
    {
        DebugMessage { level, provider: provider.to_owned(), message: message.to_owned(), timestamp, step: None, success: None }
    }

    /// The message with a step number.
    pub fn with_step(self, step: usize) -> (r: DebugMessage)
        ensures
            r.step == Some(step),
            r.level == self.level,
            r.provider == self.provider,
            r.message == self.message,
            r.success == self.success,
    {
        let mut m = self;
        m.step = Some(step);
        m
    }

    /// The message with an outcome.
    pub fn with_success(self, success: bool) -> (r: DebugMessage)
        ensures
            r.success == Some(success),
            r.level == self.level,
            r.provider == self.provider,
            r.message == self.message,
            r.step == self.step,
    {
        let mut m = self;
        m.success = Some(success);
        m
    }

    /// The message as displayed (see `message_text`).
    pub fn format(&self) -> (r: String)
        ensures
            r@ == message_text(self.level, self.step, self.message@, self.success),
    {
        proof {
            reveal_strlit("");
            assert(""@ =~= Seq::<char>::empty());
        }
        let prefix: &str = if self.level == SILENT { "" } else { "CONFIG: " };
        let step_prefix = match self.step {
            Some(step) => {
                let a = concat("[", decimal_text(step as u64).as_str());
                concat(a.as_str(), "/] ")
            },
            None => String::new(),
        };
        let suffix: &str = match self.success {
            Some(true) => " ✓",
            Some(false) => " ✗",
            None => "",
        };
        let a = concat(prefix, step_prefix.as_str());
        let b = concat(a.as_str(), self.message.as_str());
        concat(b.as_str(), suffix)
    }
}

/// Collects debug messages during configuration operations.
pub trait DebugCollector {
    /// Adds a debug message.
    fn debug(&mut self, level: u8, provider: &str, message: &str);

    /// Adds a debug message with step information.
    fn debug_step(&mut self, level: u8, provider: &str, step: usize, message: &str);

    /// Adds a debug message with a success or failure indication.
    fn debug_result(&mut self, level: u8, provider: &str, message: &str, success: bool);

    /// Adds a debug message with both step and success information.
    fn debug_step_result(&mut self, level: u8, provider: &str, step: usize, message: &str, success: bool);
}

} // verus!
