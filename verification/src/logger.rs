//! The logger's decision core: which messages pass the configured level.
//!
//! Writing the line out, reading the level from the environment and
//! registering with the logging facade are the embedding program's side;
//! the filtering rule lives here.

use vstd::prelude::*;

verus! {

/// Logging levels, `Off` silencing everything and each later level
/// admitting more.
#[derive(Debug, Clone, Copy, PartialEq, Eq, Structural)]
pub enum LogLevel {
    Off,
    Error,
    Warn,
    Info,
    Debug,
    Trace,
}

/// The level's place in the order, 0 for `Off` through 5 for `Trace`.
pub open spec fn level_rank(l: LogLevel) -> int {
    match l {
        LogLevel::Off => 0,
        LogLevel::Error => 1,
        LogLevel::Warn => 2,
        LogLevel::Info => 3,
        LogLevel::Debug => 4,
        LogLevel::Trace => 5,
    }
}

/// The level's place in the order, as a number.
pub fn level_rank_of(l: LogLevel) -> (r: u8)
    ensures
        r == level_rank(l),
{
    match l {
        LogLevel::Off => 0,
        LogLevel::Error => 1,
        LogLevel::Warn => 2,
        LogLevel::Info => 3,
        LogLevel::Debug => 4,
        LogLevel::Trace => 5,
    }
}

/// A bare-bones logger: it keeps one maximum level and passes exactly the
/// messages at or below it.
#[derive(Debug, Clone, Copy, PartialEq, Eq, Structural)]
pub struct SimpleLogger {
    /// The most verbose level still logged.
    pub log_level: LogLevel,
}

impl SimpleLogger {
    /// A logger that passes messages up to the given level.
    pub fn new(log_level: LogLevel) -> (l: SimpleLogger)
        ensures
            l.log_level == log_level,
    {
        SimpleLogger { log_level }
    }

    /// Whether a message of the given level is logged: exactly when its
    /// level does not exceed the configured one.
    pub fn enabled(&self, level: LogLevel) -> (r: bool)
        ensures
            r == (level_rank(level) <= level_rank(self.log_level)),
    {
        level_rank_of(level) <= level_rank_of(self.log_level)
    }
}

} // verus!
