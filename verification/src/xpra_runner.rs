//! Relay state machine and session-launcher decisions.
//!
//! The relay bridges one session's client channel and its desktop server.
//! Every decision the relay loop makes — what to forward, what to emit, how
//! the sequence counter moves — lives here as a step function from state
//! and event to action; the surrounding loop only performs the network
//! transfers the actions name. Sequence numbers are cumulative byte offsets
//! into the ciphertext stream: each emitted frame carries the current
//! offset, which also positions the keystream, and advances it by the
//! frame's length. The launcher-side checks (per-user cap, display
//! acquisition, registration, teardown bookkeeping) stand here too.

use vstd::prelude::*;
use crate::XpraError;
use crate::xpra_config::XpraConfig;
use crate::xpra_metrics::{sat_dec, sat_inc, XpraMetrics};
use crate::xpra_monitor::{
    contains_id, count_user, entry_of, lemma_count_user_remove_at, remove_id, unique_ids,
    SessionInfo, SessionMonitor,
};
use crate::xpra_pool::{first_free_from, DisplayPool};

verus! {

/// A command arriving from the client on the session's channel.
pub enum ShellData {
    /// Raw bytes to forward to the desktop server unmodified.
    Data(Vec<u8>),
    /// A terminal resize notice (rows, columns); recorded, no network
    /// effect on the desktop server.
    Size(u16, u16),
    /// The stream position the server side believes in; adopted only when
    /// ahead of the relay's own counter.
    Sync(u64),
}

/// One readiness event of the relay loop.
pub enum RelayEvent {
    /// A client command arrived on the session channel.
    Client(ShellData),
    /// The desktop server sent a frame of bytes.
    Server(Vec<u8>),
}

/// A frame bound for the client: encrypt `plaintext` for stream
/// `stream_id` at keystream position `seq`, and deliver it as the data
/// unit with sequence number `seq`.
pub struct FrameOut {
    /// Per-session stream identifier for the encryption capability.
    pub stream_id: u64,
    /// Byte offset of this frame in the ciphertext stream: both the
    /// frame's sequence number and the keystream position.
    pub seq: u64,
    /// The frame's bytes, still unencrypted.
    pub plaintext: Vec<u8>,
}

/// What the relay loop must do after one event.
pub enum RelayAction {
    /// Nothing to send for this event.
    NoEffect,
    /// Forward these bytes to the desktop server unmodified.
    Forward(Vec<u8>),
    /// Encrypt and send a frame to the client.
    Emit(FrameOut),
}

/// An event reduced to what moves the sequence counter, for stating the
/// relay's ordering laws.
pub enum RelayEventModel {
    /// Client bytes: no effect on the counter.
    ClientData,
    /// A resize notice: no effect on the counter.
    Resize,
    /// A sequence sync carrying this position.
    Sync(u64),
    /// A server frame of this many bytes.
    ServerFrame(nat),
}

/// The model of a concrete relay event.
pub open spec fn event_model(e: RelayEvent) -> RelayEventModel {
    match e {
        RelayEvent::Client(cmd) => match cmd {
            ShellData::Data(_) => RelayEventModel::ClientData,
            ShellData::Size(_, _) => RelayEventModel::Resize,
            ShellData::Sync(n) => RelayEventModel::Sync(n),
        },
        RelayEvent::Server(frame) => RelayEventModel::ServerFrame(frame@.len()),
    }
}

/// Where the sequence counter stands after one event: a server frame
/// advances it by the frame's length; a sync ratchets it forward, never
/// back; nothing else moves it.
pub open spec fn seq_after(seq: int, e: RelayEventModel) -> int {
    match e {
        RelayEventModel::ClientData => seq,
        RelayEventModel::Resize => seq,
        RelayEventModel::Sync(n) => if n > seq {
            n as int
        } else {
            seq
        },
        RelayEventModel::ServerFrame(len) => seq + len,
    }
}

/// The `(sequence number, byte length)` of every frame the relay emits
/// while running from counter `seq` through `events`, in emission order.
pub open spec fn emitted_frames(seq: int, events: Seq<RelayEventModel>) -> Seq<(int, nat)>
    decreases events.len(),
{
    if events.len() == 0 {
        Seq::empty()
    } else {
        let rest = emitted_frames(seq_after(seq, events.first()), events.drop_first());
        match events.first() {
            RelayEventModel::ServerFrame(len) => seq![(seq, len)] + rest,
            _ => rest,
        }
    }
}

/// No sequence-sync command occurs among the events.
pub open spec fn no_sync(events: Seq<RelayEventModel>) -> bool {
    forall|k: int| 0 <= k < events.len() ==> !((#[trigger] events[k]) is Sync)
}

/// The chain structure of the emitted frames: every frame sits at or after
/// the starting offset, each next frame sits at or after the previous
/// frame's end, and without sync commands each frame sits exactly at the
/// previous frame's end, the first exactly at the start.
pub proof fn lemma_emitted_frames_chain(seq: int, events: Seq<RelayEventModel>)
    requires
        seq >= 0,
    ensures
        forall|k: int|
            0 <= k < emitted_frames(seq, events).len() ==> (#[trigger] emitted_frames(
                seq,
                events,
            )[k]).0 >= seq,
        forall|k: int|
            0 <= k < emitted_frames(seq, events).len() - 1 ==> (#[trigger] emitted_frames(
                seq,
                events,
            )[k + 1]).0 >= emitted_frames(seq, events)[k].0 + emitted_frames(seq, events)[k].1,
        no_sync(events) ==> forall|k: int|
            0 <= k < emitted_frames(seq, events).len() - 1 ==> (#[trigger] emitted_frames(
                seq,
                events,
            )[k + 1]).0 == emitted_frames(seq, events)[k].0 + emitted_frames(seq, events)[k].1,
        no_sync(events) && emitted_frames(seq, events).len() > 0 ==> emitted_frames(
            seq,
            events,
        )[0].0 == seq,
    decreases events.len(),
{
    if events.len() > 0 {
        let head = events.first();
        let s1 = seq_after(seq, head);
        let rest = events.drop_first();
        assert(s1 >= seq);
        lemma_emitted_frames_chain(s1, rest);
        let er = emitted_frames(s1, rest);
        let e = emitted_frames(seq, events);
        if no_sync(events) {
            assert(no_sync(rest)) by {
                assert(forall|k: int|
                    0 <= k < rest.len() ==> rest[k] == events[k + 1] && !((
                    #[trigger] rest[k]) is Sync));
            }
        }
        match head {
            RelayEventModel::ServerFrame(len) => {
                assert(e == seq![(seq, len)] + er);
                assert(e[0] == (seq, len));
                assert(forall|k: int| 0 <= k < er.len() ==> e[k + 1] == er[k]);
                assert(s1 == seq + len);
            },
            _ => {
                assert(e == er);
                if no_sync(events) {
                    assert(!(head is Sync)) by {
                        assert(events[0] == head);
                    }
                    assert(s1 == seq);
                }
            },
        }
    }
}

/// Law: the sequence numbers of the frames a relay session emits are
/// non-decreasing, whatever commands the client interleaves.
pub proof fn lemma_relay_seq_monotonic(seq: int, events: Seq<RelayEventModel>, i: int, j: int)
    requires
        seq >= 0,
        0 <= i <= j < emitted_frames(seq, events).len(),
    ensures
        (emitted_frames(seq, events)[i]).0 <= (emitted_frames(seq, events)[j]).0,
    decreases j - i,
{
    lemma_emitted_frames_chain(seq, events);
    if i < j {
        lemma_relay_seq_monotonic(seq, events, i + 1, j);
    }
}

/// Law: while no sequence-sync command intervenes, each emitted frame's
/// sequence number equals the previous frame's sequence number plus the
/// previous frame's byte length — the numbers are exactly the cumulative
/// byte offsets of the delivered frames.
pub proof fn lemma_relay_increments_match_lengths(
    seq: int,
    events: Seq<RelayEventModel>,
    k: int,
)
    requires
        seq >= 0,
        no_sync(events),
        0 <= k < emitted_frames(seq, events).len() - 1,
    ensures
        (emitted_frames(seq, events)[k + 1]).0 == (emitted_frames(seq, events)[k]).0
            + (emitted_frames(seq, events)[k]).1,
{
    lemma_emitted_frames_chain(seq, events);
}

/// The relay's per-session state: the channel id and the cumulative byte
/// offset into the ciphertext stream.
pub struct RelayState {
    /// The session's channel identifier.
    pub id: u32,
    /// Cumulative byte offset: sequence number of the next emitted frame
    /// and keystream position of its encryption.
    pub seq: u64,
}

impl RelayState {
    /// A fresh relay for the channel, starting at offset zero.
    pub fn new(id: u32) -> (r: Self)
        ensures
            r.id == id,
            r.seq == 0,
    {
        RelayState { id, seq: 0 }
    }

    /// Handle one readiness event: client bytes are forwarded unmodified;
    /// a resize is absorbed; a sync ratchets the counter forward, never
    /// back; a server frame is emitted at the current offset, which then
    /// advances by the frame's length.
    pub fn handle_event(&mut self, event: RelayEvent) -> (action: RelayAction)
        requires
            event matches RelayEvent::Server(frame) ==> old(self).seq + frame@.len() <= u64::MAX,
        ensures
            final(self).id == old(self).id,
            final(self).seq == seq_after(old(self).seq as int, event_model(event)),
            match event {
                RelayEvent::Client(cmd) => match cmd {
                    ShellData::Data(d) => action == RelayAction::Forward(d),
                    ShellData::Size(r, c) => action == RelayAction::NoEffect,
                    ShellData::Sync(n) => action == RelayAction::NoEffect,
                },
                RelayEvent::Server(frame) => {
                    &&& action matches RelayAction::Emit(out)
                    &&& out.stream_id == (0x100000000u64 | old(self).id as u64)
                    &&& out.seq == old(self).seq
                    &&& out.plaintext == frame
                },
            },
    {
        match event {
            RelayEvent::Client(cmd) => match cmd {
                ShellData::Data(d) => RelayAction::Forward(d),
                ShellData::Size(_rows, _cols) => RelayAction::NoEffect,
                ShellData::Sync(n) => {
                    if n > self.seq {
                        self.seq = n;
                    }
                    RelayAction::NoEffect
                },
            },
            RelayEvent::Server(frame) => {
                let len = frame.len() as u64;
                let out = FrameOut {
                    stream_id: 0x100000000u64 | (self.id as u64),
                    seq: self.seq,
                    plaintext: frame,
                };
                self.seq = self.seq + len;
                RelayAction::Emit(out)
            },
        }
    }
}

/// Whether a new session for a user is admitted: either no cap is
/// configured, or the user holds fewer sessions than the cap.
pub open spec fn session_admitted(user_sessions: nat, max_sessions: u32) -> bool {
    max_sessions == 0 || user_sessions < max_sessions
}

/// Law: with a cap configured, a user already holding as many sessions as
/// the cap allows is refused another one.
pub proof fn lemma_user_cap_blocks(s: Seq<crate::xpra_monitor::SessionEntry>, user: Seq<char>, max: u32)
    requires
        max > 0,
        count_user(s, user) >= max as nat,
    ensures
        !session_admitted(count_user(s, user), max),
{
}

/// Law: when a user at the cap releases one of their sessions, exactly one
/// more registration is admitted: the count drops to one below the cap, so
/// the next attempt passes, and a count back at the cap is refused again.
pub proof fn lemma_user_cap_after_release(s: Seq<crate::xpra_monitor::SessionEntry>, i: int, max: u32)
    requires
        unique_ids(s),
        0 <= i < s.len(),
        max > 0,
        count_user(s, s[i].info.user@) == max as nat,
    ensures
        session_admitted(count_user(remove_id(s, s[i].session_id@), s[i].info.user@), max),
        count_user(remove_id(s, s[i].session_id@), s[i].info.user@) == max as nat - 1,
        !session_admitted(count_user(remove_id(s, s[i].session_id@), s[i].info.user@) + 1, max),
{
    lemma_count_user_remove_at(s, i, s[i].info.user@);
}

/// Reject a new session for the user when the per-user cap is reached —
/// before any display number is allocated.
pub fn check_session_limit(monitor: &SessionMonitor, config: &XpraConfig, user: &String) -> (r:
    Result<(), XpraError>)
    ensures
        r is Ok <==> session_admitted(count_user(monitor@, user@), config.max_sessions),
        r is Err ==> r == Err::<(), XpraError>(XpraError::MaxSessionsReached),
{
    let count = monitor.get_user_session_count(user);
    if config.max_sessions > 0 && count >= config.max_sessions as usize {
        Err(XpraError::MaxSessionsReached)
    } else {
        Ok(())
    }
}

/// Acquire a display number for a new session and compute its websocket
/// port. Exhaustion is reported as the capacity error with the pool
/// untouched, so the caller rejects the session instead of crashing.
pub fn acquire_display(pool: &mut DisplayPool, config: &XpraConfig) -> (r: Result<
    (u16, u16),
    XpraError,
>)
    requires
        old(pool).wf(),
        config.wf(),
        old(pool).min_spec() == config.min_display,
        old(pool).max_spec() == config.max_display,
    ensures
        final(pool).wf(),
        final(pool).min_spec() == old(pool).min_spec(),
        final(pool).max_spec() == old(pool).max_spec(),
        match r {
            Ok(dp) => {
                &&& Some(dp.0) == first_free_from(
                    old(pool).allocated(),
                    config.min_display,
                    config.max_display,
                )
                &&& !old(pool).allocated().contains(dp.0)
                &&& config.min_display <= dp.0 <= config.max_display
                &&& final(pool).allocated() == old(pool).allocated().insert(dp.0)
                &&& dp.1 == config.base_port + (dp.0 - config.min_display)
            },
            Err(err) => {
                &&& err == XpraError::Exhausted
                &&& *final(pool) == *old(pool)
                &&& forall|e: u16|
                    config.min_display <= e <= config.max_display ==> old(
                        pool,
                    ).allocated().contains(e)
            },
        },
{
    match pool.allocate() {
        Ok(display) => {
            let port = config.websocket_port(display);
            Ok((display, port))
        },
        Err(err) => Err(err),
    }
}

/// Finish a display's setup after the surrounding process has checked the
/// websocket port and tried to spawn the desktop server. On either failure
/// the acquired display number is released before the error surfaces — no
/// number leaks on any failure path. An occupied port is reported before a
/// spawn failure, since the spawn is never attempted on a busy port.
pub fn complete_display_setup(
    pool: &mut DisplayPool,
    display: u16,
    port_free: bool,
    spawn_ok: bool,
) -> (r: Result<(), XpraError>)
    requires
        old(pool).wf(),
    ensures
        final(pool).wf(),
        final(pool).min_spec() == old(pool).min_spec(),
        final(pool).max_spec() == old(pool).max_spec(),
        r is Ok <==> port_free && spawn_ok,
        r is Ok ==> *final(pool) == *old(pool),
        !port_free ==> r == Err::<(), XpraError>(XpraError::PortUnavailable),
        port_free && !spawn_ok ==> r == Err::<(), XpraError>(XpraError::SpawnFailed),
        !(port_free && spawn_ok) ==> final(pool).allocated() == old(pool).allocated().remove(
            display,
        ),
{
    if !port_free {
        pool.release(display);
        Err(XpraError::PortUnavailable)
    } else if !spawn_ok {
        pool.release(display);
        Err(XpraError::SpawnFailed)
    } else {
        Ok(())
    }
}

/// Register a freshly-created session and count it as started. After the
/// websocket port was verified free and the desktop-server process
/// spawned, this is the step that makes the session visible.
pub fn register_started(
    monitor: &mut SessionMonitor,
    metrics: &mut XpraMetrics,
    session_id: String,
    user: String,
    display: u16,
    now: u64,
)
    requires
        old(monitor).wf(),
    ensures
        final(monitor).wf(),
        final(monitor)@.len() == remove_id(old(monitor)@, session_id@).len() + 1,
        final(monitor)@.drop_last() == remove_id(old(monitor)@, session_id@),
        final(monitor)@.last().session_id@ == session_id@,
        final(monitor)@.last().info.user@ == user@,
        final(monitor)@.last().info.display == display,
        final(monitor)@.last().info.last_activity == now,
        final(metrics).total_spec() == sat_inc(old(metrics).total_spec()),
        final(metrics).active_spec() == sat_inc(old(metrics).active_spec()),
        final(metrics).failed_spec() == old(metrics).failed_spec(),
        final(metrics).idle_spec() == old(metrics).idle_spec(),
        final(metrics).start_spec() == old(metrics).start_spec(),
{
    monitor.register_session(session_id, user, display, now);
    metrics.session_started();
}

/// Tear one session down: remove its record, release its display number,
/// and count the end as graceful or failed. Every step is idempotent, so
/// a second teardown of the same session cannot double-release or corrupt
/// the registry.
pub fn end_session(
    monitor: &mut SessionMonitor,
    metrics: &mut XpraMetrics,
    pool: &mut DisplayPool,
    session_id: &String,
    display: u16,
    failed: bool,
) -> (removed: Option<SessionInfo>)
    requires
        old(monitor).wf(),
        old(pool).wf(),
    ensures
        final(monitor).wf(),
        final(pool).wf(),
        final(pool).min_spec() == old(pool).min_spec(),
        final(pool).max_spec() == old(pool).max_spec(),
        final(monitor)@ == remove_id(old(monitor)@, session_id@),
        removed is Some <==> contains_id(old(monitor)@, session_id@),
        contains_id(old(monitor)@, session_id@) ==> removed == Some(
            entry_of(old(monitor)@, session_id@).info,
        ),
        final(pool).allocated() == old(pool).allocated().remove(display),
        final(metrics).total_spec() == old(metrics).total_spec(),
        final(metrics).active_spec() == sat_dec(old(metrics).active_spec()),
        final(metrics).failed_spec() == if failed {
            sat_inc(old(metrics).failed_spec())
        } else {
            old(metrics).failed_spec()
        },
        final(metrics).idle_spec() == old(metrics).idle_spec(),
        final(metrics).start_spec() == old(metrics).start_spec(),
{
    let removed = monitor.remove_session(session_id);
    pool.release(display);
    if failed {
        metrics.session_failed();
    } else {
        metrics.session_ended();
    }
    removed
}

} // verus!
