//! What a control request asks for: how long, and at what intensity.
use vstd::prelude::*;
use crate::pattern::Pattern;
use crate::speed::Speed;

verus! {

/// The largest number of seconds whose milliseconds fit in a `u64`.
pub const MAX_WHOLE_SECS: u64 = 18446744073709551;

/// How long a task runs.
#[derive(Debug, Clone, Copy, PartialEq, Eq, Structural)]
pub enum TkDuration {
    /// Until it is stopped.
    Infinite,
    /// For this many milliseconds.
    Timed(u64),
}

impl TkDuration {
    /// A run of `ms` milliseconds.
    pub fn from_millis(ms: u64) -> (r: TkDuration)
        ensures
            r == TkDuration::Timed(ms),
    {
        TkDuration::Timed(ms)
    }

    /// A run of `s` seconds, held at the largest representable run where the
    /// milliseconds would not fit.
    pub fn from_secs(s: u64) -> (r: TkDuration)
        ensures
            r == TkDuration::Timed(
                if s * 1000 <= u64::MAX {
                    (s * 1000) as u64
                } else {
                    u64::MAX
                },
            ),
    {
        if s > MAX_WHOLE_SECS {
            TkDuration::Timed(u64::MAX)
        } else {
            TkDuration::Timed(s * 1000)
        }
    }
}

/// A playback request as callers phrase it.
#[derive(Debug, Clone)]
pub enum TkPattern {
    /// A constant intensity.
    Linear(TkDuration, Speed),
    /// The named pattern from the pattern store.
    Funscript(TkDuration, String),
}

/// What a task writes on each tick.
#[derive(Debug, Clone)]
pub enum Task {
    /// The same intensity throughout.
    Constant(Speed),
    /// A looped pattern, sampled at the time since the task started.
    Pattern(Pattern),
}

impl Task {
    /// The intensity or the pattern is usable.
    pub open spec fn wf(&self) -> bool {
        match self {
            Task::Constant(s) => s.wf(),
            Task::Pattern(p) => p.wf(),
        }
    }
}

} // verus!
