//! Which Android log priority a message of a given level is written with.

use vstd::prelude::*;

verus! {

/// The level of a log message, from the most to the least severe; the same
/// levels as `log::Level`.
#[derive(Clone, Copy, Debug, PartialEq, Eq, Structural)]
pub enum LogLevel {
    Error,
    Warn,
    Info,
    Debug,
    Trace,
}

impl LogLevel {
    /// The level's place from the most severe (`Error`, 1) to the least
    /// severe (`Trace`, 5), as `log::Level` numbers them.
    pub open spec fn severity_rank(self) -> nat {
        match self {
            LogLevel::Error => 1,
            LogLevel::Warn => 2,
            LogLevel::Info => 3,
            LogLevel::Debug => 4,
            LogLevel::Trace => 5,
        }
    }
}

/// The priorities of Android's log (`android_LogPriority`) that messages are
/// written with.
#[derive(Clone, Copy, Debug, PartialEq, Eq, Structural)]
pub enum LogPriority {
    Verbose,
    Debug,
    Info,
    Warn,
    Error,
}

impl LogPriority {
    /// The number by which Android's `android_LogPriority` stands for this
    /// priority: a higher number is a more severe priority.
    pub open spec fn android_value(self) -> nat {
        match self {
            LogPriority::Verbose => 2,
            LogPriority::Debug => 3,
            LogPriority::Info => 4,
            LogPriority::Warn => 5,
            LogPriority::Error => 6,
        }
    }
}

/// The Android log priority for a message of level `level`: each level has
/// the priority of the same name, except `Trace`, which Android calls
/// `Verbose`.
pub open spec fn priority_of(level: LogLevel) -> LogPriority {
    match level {
        LogLevel::Error => LogPriority::Error,
        LogLevel::Warn => LogPriority::Warn,
        LogLevel::Info => LogPriority::Info,
        LogLevel::Debug => LogPriority::Debug,
        LogLevel::Trace => LogPriority::Verbose,
    }
}

/// The Android log priority with which `android_log` writes a message of
/// level `level`.
pub fn android_log_priority(level: LogLevel) -> (p: LogPriority)
    ensures
        p == priority_of(level),
{
    match level {
        LogLevel::Error => LogPriority::Error,
        LogLevel::Warn => LogPriority::Warn,
        LogLevel::Info => LogPriority::Info,
        LogLevel::Debug => LogPriority::Debug,
        LogLevel::Trace => LogPriority::Verbose,
    }
}

} // verus!
