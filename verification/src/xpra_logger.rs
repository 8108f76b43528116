//! Session event records for the external event-log sink.
//!
//! The core hands these records to the surrounding process, which writes
//! them to disk; a failure to log never blocks or fails the operation that
//! produced the event.

use vstd::prelude::*;
use crate::xpra_monitor::SessionEntry;

verus! {

/// The four terminal-state transitions a session event can report, plus
/// creation.
#[derive(Clone, Copy, Debug, PartialEq, Eq, Structural)]
pub enum SessionEventType {
    /// The session was registered.
    Created,
    /// The session ended normally.
    Terminated,
    /// The session ended in an error.
    Failed,
    /// The idle sweep evicted the session.
    IdleTimeout,
}

/// One record for the event-log sink: when, what, and which session.
pub struct SessionEvent {
    /// Clock value (seconds) at which the event happened.
    pub timestamp: u64,
    /// What happened.
    pub event_type: SessionEventType,
    /// The session's identity string.
    pub session_id: String,
    /// The user the session belongs to.
    pub user: String,
    /// The display number the session held.
    pub display: u16,
}

/// The idle-timeout events for the records one sweep evicted, in eviction
/// order, all stamped with the sweep instant.
pub fn events_for_evicted(evicted: &Vec<SessionEntry>, timestamp: u64) -> (r: Vec<SessionEvent>)
    ensures
        r@.len() == evicted@.len(),
        forall|i: int|
            0 <= i < evicted@.len() ==> {
                &&& (#[trigger] r@[i]).timestamp == timestamp
                &&& r@[i].event_type == SessionEventType::IdleTimeout
                &&& r@[i].session_id@ == evicted@[i].session_id@
                &&& r@[i].user@ == evicted@[i].info.user@
                &&& r@[i].display == evicted@[i].info.display
            },
{
    let n = evicted.len();
    let mut out: Vec<SessionEvent> = Vec::new();
    let mut i: usize = 0;
    while i < n
        invariant
            n == evicted@.len(),
            i <= n,
            out@.len() == i,
            forall|j: int|
                0 <= j < i ==> {
                    &&& (#[trigger] out@[j]).timestamp == timestamp
                    &&& out@[j].event_type == SessionEventType::IdleTimeout
                    &&& out@[j].session_id@ == evicted@[j].session_id@
                    &&& out@[j].user@ == evicted@[j].info.user@
                    &&& out@[j].display == evicted@[j].info.display
                },
        decreases n - i,
    {
        let e = &evicted[i];
        out.push(
            SessionEvent {
                timestamp,
                event_type: SessionEventType::IdleTimeout,
                session_id: e.session_id.clone(),
                user: e.info.user.clone(),
                display: e.info.display,
            },
        );
        i = i + 1;
    }
    out
}

} // verus!
