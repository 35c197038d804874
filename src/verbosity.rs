//! Stepping the logging verbosity up and down.
use vstd::prelude::*;

verus! {

/// Logging verbosity, from silent to most detailed.
#[derive(Clone, Copy, Debug, PartialEq, Eq, Structural)]
pub enum LogLevel {
    Off,
    Error,
    Warn,
    Info,
    Debug,
    Trace,
}

/// The position of a level, from 0 for `Off` to 5 for `Trace`.
pub open spec fn rank(l: LogLevel) -> int {
    match l {
        LogLevel::Off => 0,
        LogLevel::Error => 1,
        LogLevel::Warn => 2,
        LogLevel::Info => 3,
        LogLevel::Debug => 4,
        LogLevel::Trace => 5,
    }
}

/// One level more detailed; `Trace` stays.
pub fn increment_loglevel(level: LogLevel) -> (r: LogLevel)
    ensures
        rank(r) == if rank(level) < 5 {
            rank(level) + 1
        } else {
            5
        },
{
    match level {
        LogLevel::Off => LogLevel::Error,
        LogLevel::Error => LogLevel::Warn,
        LogLevel::Warn => LogLevel::Info,
        LogLevel::Info => LogLevel::Debug,
        LogLevel::Debug | LogLevel::Trace => LogLevel::Trace,
    }
}

/// One level less detailed; `Off` stays.
pub fn decrement_loglevel(level: LogLevel) -> (r: LogLevel)
    ensures
        rank(r) == if rank(level) > 0 {
            rank(level) - 1
        } else {
            0
        },
{
    match level {
        LogLevel::Off | LogLevel::Error => LogLevel::Off,
        LogLevel::Warn => LogLevel::Error,
        LogLevel::Info => LogLevel::Warn,
        LogLevel::Debug => LogLevel::Info,
        LogLevel::Trace => LogLevel::Debug,
    }
}

} // verus!
