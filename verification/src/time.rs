//! The tick counter and the watchdog that tells whether the kernel still
//! makes progress.

use vstd::prelude::*;

verus! {

/// The tick counter: the heartbeat of the kernel, raised by one on every
/// timer interrupt.
pub struct Ticks {
    pub count: u64,
}

impl Ticks {
    /// A counter at 0.
    pub fn new() -> (t: Ticks)
        ensures
            t.count == 0,
    {
        Ticks { count: 0 }
    }
}

/// Counts one tick. The counter wraps around to 0 behind its largest value.
pub fn tick(ticks: &mut Ticks)
    ensures
        final(ticks).count == if old(ticks).count == u64::MAX {
            0
        } else {
            old(ticks).count + 1
        },
{
    if ticks.count == u64::MAX {
        ticks.count = 0;
    } else {
        ticks.count = ticks.count + 1;
    }
}

/// The ticks counted so far.
pub fn get_ticks(ticks: &Ticks) -> (t: u64)
    ensures
        t == ticks.count,
{
    ticks.count
}

/// Tells whether a sign of life is due: it is on every `interval`-th tick.
pub fn health_check(ticks: &Ticks, interval: u64) -> (due: bool)
    requires
        interval != 0,
    ensures
        due == (ticks.count % interval == 0),
{
    get_ticks(ticks) % interval == 0
}

/// What a check of the watchdog found.
#[derive(Clone, Copy, Debug, PartialEq, Eq, Structural)]
pub enum WatchdogStatus {
    /// The window has not passed yet.
    Waiting,
    /// Ticks advanced: the baseline moved on and the failures are forgotten.
    Progress,
    /// No tick at the end of the window, and a grace check was used up.
    Grace,
    /// No tick at the end of the window, and the failure was counted.
    Stalled,
    /// The failures have reached the threshold: the kernel hangs.
    Timeout,
}

/// A watchdog over the tick counter. A check looks at the counter once the
/// window has passed since the baseline; ticks that stand still use up the
/// grace checks, then count as failures.
pub struct Watchdog {
    pub last_ticks: u64,
    pub window: u64,
    pub grace_left: u32,
    pub consecutive_failures: u32,
    pub failure_threshold: u32,
}

/// What a check finds, by the state of the watchdog and the tick count.
pub open spec fn verdict(w: Watchdog, current: u64) -> WatchdogStatus {
    if current < w.last_ticks + w.window {
        WatchdogStatus::Waiting
    } else if current != w.last_ticks {
        WatchdogStatus::Progress
    } else if w.grace_left > 0 {
        WatchdogStatus::Grace
    } else if w.consecutive_failures + 1 >= w.failure_threshold {
        WatchdogStatus::Timeout
    } else {
        WatchdogStatus::Stalled
    }
}

/// The watchdog after a check.
pub open spec fn checked(w: Watchdog, current: u64) -> Watchdog {
    match verdict(w, current) {
        WatchdogStatus::Waiting => w,
        WatchdogStatus::Progress => Watchdog {
            last_ticks: current,
            consecutive_failures: 0,
            ..w
        },
        WatchdogStatus::Grace => Watchdog { grace_left: (w.grace_left - 1) as u32, ..w },
        _ => Watchdog {
            consecutive_failures: if w.consecutive_failures == u32::MAX {
                u32::MAX
            } else {
                (w.consecutive_failures + 1) as u32
            },
            ..w
        },
    }
}

impl Watchdog {
    /// A watchdog whose baseline is the tick count `now`.
    pub fn new(now: u64, window: u64, grace_checks: u32, failure_threshold: u32) -> (w: Watchdog)
        ensures
            w.last_ticks == now,
            w.window == window,
            w.grace_left == grace_checks,
            w.consecutive_failures == 0,
            w.failure_threshold == failure_threshold,
    {
        Watchdog {
            last_ticks: now,
            window,
            grace_left: grace_checks,
            consecutive_failures: 0,
            failure_threshold,
        }
    }

    /// Checks the progress of the kernel at the tick count `current`.
    pub fn check(&mut self, current: u64) -> (status: WatchdogStatus)
        ensures
            status == verdict(*old(self), current),
            *final(self) == checked(*old(self), current),
    {
        let waiting = if self.window > u64::MAX - self.last_ticks {
            true
        } else {
            current < self.last_ticks + self.window
        };
        if waiting {
            return WatchdogStatus::Waiting;
        }
        if current == self.last_ticks {
            if self.grace_left > 0 {
                self.grace_left = self.grace_left - 1;
                WatchdogStatus::Grace
            } else {
                if self.consecutive_failures < u32::MAX {
                    self.consecutive_failures = self.consecutive_failures + 1;
                    if self.consecutive_failures >= self.failure_threshold {
                        WatchdogStatus::Timeout
                    } else {
                        WatchdogStatus::Stalled
                    }
                } else {
                    WatchdogStatus::Timeout
                }
            }
        } else {
            self.last_ticks = current;
            self.consecutive_failures = 0;
            WatchdogStatus::Progress
        }
    }
}

/// Ticks that stand still are only seen by a watchdog whose window is 0:
/// with a longer window, a check that does not wait finds progress.
pub proof fn lemma_stall_needs_empty_window(w: Watchdog, current: u64)
    requires
        w.window > 0,
    ensures
        verdict(w, current) == WatchdogStatus::Waiting || verdict(w, current)
            == WatchdogStatus::Progress,
{
}

} // verus!
