//! Command-line configuration.

use vstd::prelude::*;

verus! {

/// Settings chosen on the command line.
#[derive(Debug)]
pub struct Config {
    /// The least severe kind of log message that is shown.
    pub log_level: LogLevel,
}

/// Severity of log messages, from the most verbose to the least.
#[derive(Clone, Copy, Debug, PartialEq, Eq, Structural)]
pub enum LogLevel {
    Trace,
    Debug,
    Info,
    Warn,
    Error,
}

} // verus!
