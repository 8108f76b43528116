//! Process-wide session counters.
//!
//! The four counters move exactly at a session's transition points: start,
//! normal end, failed end, idle-evicted end — four mutually exclusive
//! terminal outcomes. The counters saturate instead of wrapping, so a
//! transition can never panic or run a counter past its bounds.

use vstd::prelude::*;

verus! {

/// `x + 1`, stopping at the top of the counter's range.
pub open spec fn sat_inc(x: u64) -> u64 {
    if x < u64::MAX {
        (x + 1) as u64
    } else {
        x
    }
}

/// `x - 1`, stopping at zero.
pub open spec fn sat_dec(x: u64) -> u64 {
    if x > 0 {
        (x - 1) as u64
    } else {
        0
    }
}

/// `x + k`, stopping at the top of the counter's range: the effect of `k`
/// saturating increments.
pub open spec fn sat_add(x: u64, k: nat) -> u64 {
    if x + k <= u64::MAX {
        (x + k) as u64
    } else {
        u64::MAX
    }
}

/// `x - k`, stopping at zero: the effect of `k` saturating decrements.
pub open spec fn sat_sub(x: u64, k: nat) -> u64 {
    if x >= k {
        (x - k) as u64
    } else {
        0
    }
}

/// Session counters plus the start instant used for uptime, all on the
/// caller-injected clock (seconds).
pub struct XpraMetrics {
    total_sessions: u64,
    active_sessions: u64,
    failed_sessions: u64,
    idle_terminations: u64,
    start_time: u64,
}

impl XpraMetrics {
    /// Sessions ever started.
    pub closed spec fn total_spec(self) -> u64 {
        self.total_sessions
    }

    /// Sessions currently live.
    pub closed spec fn active_spec(self) -> u64 {
        self.active_sessions
    }

    /// Sessions that ended in an error.
    pub closed spec fn failed_spec(self) -> u64 {
        self.failed_sessions
    }

    /// Sessions evicted by the idle sweep.
    pub closed spec fn idle_spec(self) -> u64 {
        self.idle_terminations
    }

    /// The clock value at which counting began.
    pub closed spec fn start_spec(self) -> u64 {
        self.start_time
    }

    /// Fresh counters, all zero, remembering `now` as the start instant.
    pub fn new(now: u64) -> (r: Self)
        ensures
            r.total_spec() == 0,
            r.active_spec() == 0,
            r.failed_spec() == 0,
            r.idle_spec() == 0,
            r.start_spec() == now,
    {
        XpraMetrics {
            total_sessions: 0,
            active_sessions: 0,
            failed_sessions: 0,
            idle_terminations: 0,
            start_time: now,
        }
    }

    /// A session started: one more total, one more active.
    pub fn session_started(&mut self)
        ensures
            final(self).total_spec() == sat_inc(old(self).total_spec()),
            final(self).active_spec() == sat_inc(old(self).active_spec()),
            final(self).failed_spec() == old(self).failed_spec(),
            final(self).idle_spec() == old(self).idle_spec(),
            final(self).start_spec() == old(self).start_spec(),
    {
        if self.total_sessions < u64::MAX {
            self.total_sessions = self.total_sessions + 1;
        }
        if self.active_sessions < u64::MAX {
            self.active_sessions = self.active_sessions + 1;
        }
    }

    /// A session ended normally: one fewer active.
    pub fn session_ended(&mut self)
        ensures
            final(self).total_spec() == old(self).total_spec(),
            final(self).active_spec() == sat_dec(old(self).active_spec()),
            final(self).failed_spec() == old(self).failed_spec(),
            final(self).idle_spec() == old(self).idle_spec(),
            final(self).start_spec() == old(self).start_spec(),
    {
        if self.active_sessions > 0 {
            self.active_sessions = self.active_sessions - 1;
        }
    }

    /// A session ended in an error: one more failed, one fewer active.
    pub fn session_failed(&mut self)
        ensures
            final(self).total_spec() == old(self).total_spec(),
            final(self).active_spec() == sat_dec(old(self).active_spec()),
            final(self).failed_spec() == sat_inc(old(self).failed_spec()),
            final(self).idle_spec() == old(self).idle_spec(),
            final(self).start_spec() == old(self).start_spec(),
    {
        if self.failed_sessions < u64::MAX {
            self.failed_sessions = self.failed_sessions + 1;
        }
        if self.active_sessions > 0 {
            self.active_sessions = self.active_sessions - 1;
        }
    }

    /// The idle sweep evicted a session: one more idle termination, one
    /// fewer active.
    pub fn idle_terminated(&mut self)
        ensures
            final(self).total_spec() == old(self).total_spec(),
            final(self).active_spec() == sat_dec(old(self).active_spec()),
            final(self).failed_spec() == old(self).failed_spec(),
            final(self).idle_spec() == sat_inc(old(self).idle_spec()),
            final(self).start_spec() == old(self).start_spec(),
    {
        if self.idle_terminations < u64::MAX {
            self.idle_terminations = self.idle_terminations + 1;
        }
        if self.active_sessions > 0 {
            self.active_sessions = self.active_sessions - 1;
        }
    }

    /// A snapshot of the counters, with uptime computed against the
    /// caller's current clock value.
    pub fn get_metrics(&self, now: u64) -> (r: XpraMetricsSnapshot)
        ensures
            r.total_sessions == self.total_spec(),
            r.active_sessions == self.active_spec(),
            r.failed_sessions == self.failed_spec(),
            r.idle_terminations == self.idle_spec(),
            r.uptime_secs == if now >= self.start_spec() {
                (now - self.start_spec()) as u64
            } else {
                0u64
            },
    {
        XpraMetricsSnapshot {
            total_sessions: self.total_sessions,
            active_sessions: self.active_sessions,
            failed_sessions: self.failed_sessions,
            idle_terminations: self.idle_terminations,
            uptime_secs: if now >= self.start_time {
                now - self.start_time
            } else {
                0
            },
        }
    }
}

/// A read-only copy of the counters at one instant.
#[derive(Clone, Copy, Debug, PartialEq, Eq, Structural)]
pub struct XpraMetricsSnapshot {
    /// Sessions ever started.
    pub total_sessions: u64,
    /// Sessions currently live.
    pub active_sessions: u64,
    /// Sessions that ended in an error.
    pub failed_sessions: u64,
    /// Sessions evicted by the idle sweep.
    pub idle_terminations: u64,
    /// Seconds since the counters were created.
    pub uptime_secs: u64,
}

} // verus!
