//! The decisions of the kernel logger: which records pass the filter, and
//! where a record that passes is shown.

use vstd::prelude::*;
use crate::writer::LogLevel;

verus! {

/// The rank of a level: errors rank lowest, traces highest. A filter lets
/// the levels up to its own rank pass.
pub open spec fn rank(level: LogLevel) -> int {
    match level {
        LogLevel::Error => 1,
        LogLevel::Warn => 2,
        LogLevel::Info => 3,
        LogLevel::Debug => 4,
        LogLevel::Trace => 5,
    }
}

/// The rank of a level.
pub fn level_rank(level: LogLevel) -> (r: u8)
    ensures
        r == rank(level),
{
    match level {
        LogLevel::Error => 1,
        LogLevel::Warn => 2,
        LogLevel::Info => 3,
        LogLevel::Debug => 4,
        LogLevel::Trace => 5,
    }
}

/// Where a record is shown.
#[derive(Clone, Copy, Debug, PartialEq, Eq, Structural)]
pub struct LogTargets {
    pub serial: bool,
    pub framebuffer: bool,
}

/// The state of the logger: the filter, and whether the framebuffer can
/// be written to yet.
#[derive(Clone, Copy, Debug, PartialEq, Eq, Structural)]
pub struct LoggerState {
    /// The most verbose level that passes; `None` lets nothing pass.
    pub max_level: Option<LogLevel>,
    pub framebuffer_ready: bool,
}

impl LoggerState {
    /// The record of a level passes the filter.
    pub open spec fn passes(&self, level: LogLevel) -> bool {
        match self.max_level {
            Some(max) => rank(level) <= rank(max),
            None => false,
        }
    }

    /// A logger with a filter, before the framebuffer is ready.
    pub fn new(max_level: Option<LogLevel>) -> (s: LoggerState)
        ensures
            s.max_level == max_level,
            !s.framebuffer_ready,
    {
        LoggerState { max_level, framebuffer_ready: false }
    }

    /// Tells whether the record of a level passes the filter.
    pub fn enabled(&self, level: LogLevel) -> (b: bool)
        ensures
            b == self.passes(level),
    {
        match self.max_level {
            Some(max) => level_rank(level) <= level_rank(max),
            None => false,
        }
    }

    /// Where the record of a level is shown: a record that passes the
    /// filter goes to the serial port, and to the framebuffer once that is
    /// ready; any other goes nowhere.
    pub fn targets(&self, level: LogLevel) -> (t: LogTargets)
        ensures
            t.serial == self.passes(level),
            t.framebuffer == (self.passes(level) && self.framebuffer_ready),
    {
        let pass = self.enabled(level);
        LogTargets { serial: pass, framebuffer: pass && self.framebuffer_ready }
    }
}

/// Says whether the framebuffer can be written to.
pub fn set_framebuffer_ready(state: &mut LoggerState, ready: bool)
    ensures
        final(state).framebuffer_ready == ready,
        final(state).max_level == old(state).max_level,
{
    state.framebuffer_ready = ready;
}

} // verus!
