//! Shared vocabulary: operation results, service lifecycle states, control
//! commands and log levels.

use vstd::prelude::*;

verus! {

/// General result of an operation.
#[derive(Debug, Clone, Copy, PartialEq, Eq, Structural)]
pub enum Status {
    Okay,
    Error,
    ServiceFailed,
    NotFound,
}

/// Where a service stands in its lifecycle.
#[derive(Debug, Clone, Copy, PartialEq, Eq, Structural)]
pub enum ServiceState {
    Stopped,
    Starting,
    Running,
    Stopping,
    Failed,
}

/// Commands that control a service or the system.
#[derive(Debug, Clone, Copy, PartialEq, Eq, Structural)]
pub enum Command {
    Start,
    Stop,
    Restart,
    Reload,
    Shutdown,
    Reboot,
}

/// Log levels, from the least to the most prominent: a sink shows a message
/// when its level is at least the sink's minimum.
#[derive(Debug, Clone, Copy, PartialEq, Eq, Structural, PartialOrd, Ord)]
pub enum LogLevel {
    Info,
    Warn,
    Fail,
    Okay,
}

impl LogLevel {
    /// The place of the level in the strict order `Info < Warn < Fail < Okay`.
    pub open spec fn rank(self) -> nat {
        match self {
            LogLevel::Info => 0,
            LogLevel::Warn => 1,
            LogLevel::Fail => 2,
            LogLevel::Okay => 3,
        }
    }

    /// Executable form of [`LogLevel::rank`].
    pub fn rank_of(self) -> (r: u8)
        ensures
            r == self.rank(),
    {
        match self {
            LogLevel::Info => 0,
            LogLevel::Warn => 1,
            LogLevel::Fail => 2,
            LogLevel::Okay => 3,
        }
    }

    /// Whether a sink with minimum `min` shows a message of this level.
    pub fn at_least(self, min: LogLevel) -> (r: bool)
        ensures
            r == (self.rank() >= min.rank()),
    {
        self.rank_of() >= min.rank_of()
    }

    /// The level's tag as it is printed.
    pub open spec fn tag(self) -> Seq<char> {
        match self {
            LogLevel::Okay => "OK"@,
            LogLevel::Fail => "FAIL"@,
            LogLevel::Info => "INFO"@,
            LogLevel::Warn => "WARN"@,
        }
    }

    /// The level's tag as it is printed.
    pub fn as_str(&self) -> (r: &'static str)
        ensures
            r@ == self.tag(),
    {
        match self {
            LogLevel::Okay => "OK",
            LogLevel::Fail => "FAIL",
            LogLevel::Info => "INFO",
            LogLevel::Warn => "WARN",
        }
    }
}

/// The order of the levels is strict and total: two levels have the same
/// rank only when they are the same level.
pub proof fn lemma_level_order_strict(a: LogLevel, b: LogLevel)
    ensures
        a.rank() == b.rank() <==> a == b,
        a.rank() < b.rank() || b.rank() < a.rank() || a == b,
{
}

} // verus!
