//! Session registry and idle monitor.
//!
//! The registry maps a session identity to its user, display number and
//! last-activity instant. Registration overwrites an existing record with
//! the same identity (last write wins); activity updates and removal of
//! absent records are harmless no-ops. The idle sweep removes every record
//! whose last activity lies more than the timeout before the sweep instant,
//! releases its display number back to the pool and counts the eviction.

use vstd::prelude::*;
use crate::xpra_metrics::{sat_add, sat_sub, XpraMetrics};
use crate::xpra_pool::DisplayPool;

verus! {

/// One live session: its user, display number and the instant (seconds on
/// the caller-injected clock) of its last recorded activity.
pub struct SessionInfo {
    /// The user the session belongs to.
    pub user: String,
    /// The display number the session holds.
    pub display: u16,
    /// Clock value of the last recorded activity.
    pub last_activity: u64,
}

/// A registry record: a session identity together with its session data.
pub struct SessionEntry {
    /// The session identity string the record is keyed by.
    pub session_id: String,
    /// The session's data.
    pub info: SessionInfo,
}

/// No two records share a session identity.
pub open spec fn unique_ids(s: Seq<SessionEntry>) -> bool {
    forall|i: int, j: int|
        0 <= i < j < s.len() ==> (#[trigger] s[i]).session_id@ != (#[trigger] s[j]).session_id@
}

/// Some record carries the given session identity.
pub open spec fn contains_id(s: Seq<SessionEntry>, id: Seq<char>) -> bool {
    exists|i: int| 0 <= i < s.len() && (#[trigger] s[i]).session_id@ == id
}

/// The index of the record with the given identity (unique when
/// `unique_ids` holds).
pub open spec fn index_of_id(s: Seq<SessionEntry>, id: Seq<char>) -> int {
    choose|i: int| 0 <= i < s.len() && (#[trigger] s[i]).session_id@ == id
}

/// The record with the given identity.
pub open spec fn entry_of(s: Seq<SessionEntry>, id: Seq<char>) -> SessionEntry {
    s[index_of_id(s, id)]
}

/// The records left after deleting every one with the given identity,
/// keeping the order of the rest.
pub open spec fn remove_id(s: Seq<SessionEntry>, id: Seq<char>) -> Seq<SessionEntry>
    decreases s.len(),
{
    if s.len() == 0 {
        Seq::empty()
    } else if s.last().session_id@ == id {
        remove_id(s.drop_last(), id)
    } else {
        remove_id(s.drop_last(), id).push(s.last())
    }
}

/// How many records belong to the given user.
pub open spec fn count_user(s: Seq<SessionEntry>, user: Seq<char>) -> nat
    decreases s.len(),
{
    if s.len() == 0 {
        0
    } else {
        count_user(s.drop_last(), user) + if s.last().info.user@ == user {
            1nat
        } else {
            0nat
        }
    }
}

/// Whether the sweep at instant `now` with the given timeout evicts the
/// record: its last activity lies more than `timeout` before `now`.
pub open spec fn is_idle(e: SessionEntry, now: u64, timeout: u64) -> bool {
    e.info.last_activity + timeout < now
}

/// The sweep's keep-condition as a function value, so that loop invariants
/// and contracts name one and the same predicate.
pub open spec fn live_pred(now: u64, timeout: u64) -> spec_fn(SessionEntry) -> bool {
    |e: SessionEntry| !is_idle(e, now, timeout)
}

/// The sweep's evict-condition as a function value.
pub open spec fn idle_pred(now: u64, timeout: u64) -> spec_fn(SessionEntry) -> bool {
    |e: SessionEntry| is_idle(e, now, timeout)
}

/// The records that survive a sweep at instant `now`.
pub open spec fn live_after_sweep(s: Seq<SessionEntry>, now: u64, timeout: u64) -> Seq<
    SessionEntry,
> {
    s.filter(live_pred(now, timeout))
}

/// The records a sweep at instant `now` evicts, in registry order.
pub open spec fn swept(s: Seq<SessionEntry>, now: u64, timeout: u64) -> Seq<SessionEntry> {
    s.filter(idle_pred(now, timeout))
}

/// The display numbers of the given records.
pub open spec fn displays_of(s: Seq<SessionEntry>) -> Set<u16>
    decreases s.len(),
{
    if s.len() == 0 {
        Set::empty()
    } else {
        displays_of(s.drop_last()).insert(s.last().info.display)
    }
}

/// Every element of `remove_id(s, id)` is an element of `s` whose identity
/// differs from `id`; deleting an absent identity changes nothing; and
/// uniqueness of identities is preserved.
pub proof fn lemma_remove_id_props(s: Seq<SessionEntry>, id: Seq<char>)
    ensures
        remove_id(s, id).len() <= s.len(),
        forall|k: int|
            0 <= k < remove_id(s, id).len() ==> (#[trigger] remove_id(s, id)[k]).session_id@ != id,
        forall|k: int|
            0 <= k < remove_id(s, id).len() ==> s.contains(#[trigger] remove_id(s, id)[k]),
        !contains_id(s, id) ==> remove_id(s, id) == s,
        unique_ids(s) ==> unique_ids(remove_id(s, id)),
    decreases s.len(),
{
    if s.len() > 0 {
        let p = s.drop_last();
        lemma_remove_id_props(p, id);
        assert(forall|k: int| 0 <= k < p.len() ==> p[k] == s[k]);
        assert(forall|k: int| 0 <= k < p.len() && s.len() > 0 ==> s.contains(s[k]));
        assert forall|k: int|
            0 <= k < remove_id(s, id).len() implies s.contains(
            #[trigger] remove_id(s, id)[k],
        ) by {
            if s.last().session_id@ == id {
                assert(p.contains(remove_id(s, id)[k]));
                let j = choose|j: int| 0 <= j < p.len() && p[j] == remove_id(s, id)[k];
                assert(s[j] == remove_id(s, id)[k]);
            } else {
                let r = remove_id(p, id).push(s.last());
                if k < r.len() - 1 {
                    assert(p.contains(remove_id(p, id)[k]));
                    let j = choose|j: int| 0 <= j < p.len() && p[j] == remove_id(p, id)[k];
                    assert(s[j] == r[k]);
                } else {
                    assert(s.contains(s[s.len() - 1]));
                }
            }
        }
        if !contains_id(s, id) {
            assert(s.last().session_id@ != id) by {
                assert(s[s.len() - 1] == s.last());
            }
            assert(!contains_id(p, id)) by {
                if contains_id(p, id) {
                    let j = choose|j: int| 0 <= j < p.len() && (#[trigger] p[j]).session_id@ == id;
                    assert(s[j].session_id@ == id);
                }
            }
            assert(remove_id(s, id) =~= s);
        }
        if unique_ids(s) {
            assert(unique_ids(p)) by {
                assert(forall|i: int, j: int|
                    0 <= i < j < p.len() ==> (#[trigger] p[i]).session_id@ != (
                    #[trigger] p[j]).session_id@);
            }
            if s.last().session_id@ != id {
                let rp = remove_id(p, id);
                let r = rp.push(s.last());
                assert forall|k: int| 0 <= k < rp.len() implies (#[trigger] rp[k]).session_id@
                    != s.last().session_id@ by {
                    assert(p.contains(rp[k]));
                    let j = choose|j: int| 0 <= j < p.len() && p[j] == rp[k];
                    assert(s[j].session_id@ != s[s.len() - 1].session_id@);
                }
                assert(unique_ids(r)) by {
                    assert(forall|i: int|
                        0 <= i < r.len() - 1 ==> r[i] == rp[i]);
                    assert(r[r.len() - 1] == s.last());
                }
            }
        }
    }
}

/// Deleting the record at index `i` changes the user's record count by one
/// exactly when that record belongs to the user.
pub proof fn lemma_count_user_remove_at(s: Seq<SessionEntry>, i: int, user: Seq<char>)
    requires
        unique_ids(s),
        0 <= i < s.len(),
    ensures
        count_user(remove_id(s, s[i].session_id@), user) == count_user(s, user) - (if s[i].info.user@
            == user {
            1int
        } else {
            0int
        }),
    decreases s.len(),
{
    let id = s[i].session_id@;
    let p = s.drop_last();
    assert(unique_ids(p)) by {
        assert(forall|a: int, b: int|
            0 <= a < b < p.len() ==> (#[trigger] p[a]).session_id@ != (#[trigger] p[b]).session_id@);
    }
    if i == s.len() - 1 {
        assert(s.last() == s[i]);
        assert(!contains_id(p, id)) by {
            if contains_id(p, id) {
                let j = choose|j: int| 0 <= j < p.len() && (#[trigger] p[j]).session_id@ == id;
                assert(s[j].session_id@ == s[i].session_id@);
            }
        }
        lemma_remove_id_props(p, id);
    } else {
        assert(s.last().session_id@ != id) by {
            assert(s[i].session_id@ != s[s.len() - 1].session_id@);
        }
        assert(p[i] == s[i]);
        lemma_count_user_remove_at(p, i, user);
        let rp = remove_id(p, id);
        assert(count_user(rp.push(s.last()), user) == count_user(rp, user) + (if s.last().info.user@
            == user {
            1int
        } else {
            0int
        })) by {
            assert(rp.push(s.last()).drop_last() == rp);
            assert(rp.push(s.last()).last() == s.last());
        }
    }
}

/// Filtering a uniquely-keyed sequence keeps the keys unique, and every
/// kept record is a record of the source.
pub proof fn lemma_filter_keeps_unique(s: Seq<SessionEntry>, p: spec_fn(SessionEntry) -> bool)
    requires
        unique_ids(s),
    ensures
        unique_ids(s.filter(p)),
        forall|k: int| 0 <= k < s.filter(p).len() ==> s.contains(#[trigger] s.filter(p)[k]),
    decreases s.len(),
{
    if s.len() > 0 {
        let p0 = s.drop_last();
        assert(unique_ids(p0)) by {
            assert(forall|a: int, b: int|
                0 <= a < b < p0.len() ==> (#[trigger] p0[a]).session_id@ != (
                #[trigger] p0[b]).session_id@);
        }
        lemma_filter_keeps_unique(p0, p);
        assert(s =~= p0.push(s.last()));
        p0.lemma_filter_push(s.last(), p);
        let f0 = p0.filter(p);
        assert(forall|k: int| 0 <= k < p0.len() ==> p0[k] == s[k]);
        assert forall|k: int| 0 <= k < f0.len() implies s.contains(#[trigger] f0[k]) by {
            assert(p0.contains(f0[k]));
            let j = choose|j: int| 0 <= j < p0.len() && p0[j] == f0[k];
            assert(s[j] == f0[k]);
        }
        if p(s.last()) {
            let r = f0.push(s.last());
            assert forall|k: int| 0 <= k < f0.len() implies (#[trigger] f0[k]).session_id@
                != s.last().session_id@ by {
                assert(p0.contains(f0[k]));
                let j = choose|j: int| 0 <= j < p0.len() && p0[j] == f0[k];
                assert(s[j].session_id@ != s[s.len() - 1].session_id@);
            }
            assert(unique_ids(r)) by {
                assert(forall|k: int| 0 <= k < f0.len() ==> r[k] == f0[k]);
                assert(r[r.len() - 1] == s.last());
            }
            assert(s.contains(s[s.len() - 1]));
        }
    }
}

/// Law: a sweep at instant `now` with timeout `t` evicts exactly the
/// sessions whose last activity lies more than `t` in the past. A session
/// untouched for longer than the timeout when the sweep runs is gone
/// afterwards, however long the sweep was delayed; one touched within `t`
/// of the sweep survives that sweep.
pub proof fn lemma_sweep_evicts_exactly_idle(s: Seq<SessionEntry>, now: u64, timeout: u64, i: int)
    requires
        unique_ids(s),
        0 <= i < s.len(),
    ensures
        is_idle(s[i], now, timeout) ==> !contains_id(
            live_after_sweep(s, now, timeout),
            s[i].session_id@,
        ),
        !is_idle(s[i], now, timeout) ==> contains_id(
            live_after_sweep(s, now, timeout),
            s[i].session_id@,
        ),
{
    let live = live_after_sweep(s, now, timeout);
    lemma_filter_keeps_unique(s, live_pred(now, timeout));
    if is_idle(s[i], now, timeout) {
        if contains_id(live, s[i].session_id@) {
            let id = s[i].session_id@;
            let k = choose|k: int| 0 <= k < live.len() && (#[trigger] live[k]).session_id@ == id;
            s.lemma_filter_pred(live_pred(now, timeout), k);
            assert(s.contains(live[k]));
            let j = choose|j: int| 0 <= j < s.len() && s[j] == live[k];
            assert(j == i) by {
                if j != i {
                    assert(s[i].session_id@ != s[j].session_id@);
                }
            }
            assert(false);
        }
    } else {
        s.lemma_filter_contains(live_pred(now, timeout), i);
        let k = choose|k: int| 0 <= k < live.len() && live[k] == s[i];
        assert(live[k].session_id@ == s[i].session_id@);
    }
}

/// The session registry: the records of all live sessions, keyed by
/// session identity.
pub struct SessionMonitor {
    sessions: Vec<SessionEntry>,
}

impl View for SessionMonitor {
    type V = Seq<SessionEntry>;

    closed spec fn view(&self) -> Seq<SessionEntry> {
        self.sessions@
    }
}

impl SessionMonitor {
    /// The registry's invariant: no two records share a session identity.
    pub open spec fn wf(self) -> bool {
        unique_ids(self@)
    }

    /// An empty registry.
    pub fn new() -> (r: Self)
        ensures
            r.wf(),
            r@ == Seq::<SessionEntry>::empty(),
    {
        SessionMonitor { sessions: Vec::new() }
    }

    /// Insert a record for the session with `last_activity = now`,
    /// overwriting any record with the same identity (last write wins).
    pub fn register_session(&mut self, session_id: String, user: String, display: u16, now: u64)
        requires
            old(self).wf(),
        ensures
            final(self).wf(),
            final(self)@.len() == remove_id(old(self)@, session_id@).len() + 1,
            final(self)@.drop_last() == remove_id(old(self)@, session_id@),
            final(self)@.last().session_id@ == session_id@,
            final(self)@.last().info.user@ == user@,
            final(self)@.last().info.display == display,
            final(self)@.last().info.last_activity == now,
    {
        let ghost s0 = self.sessions@;
        let mut kept: Vec<SessionEntry> = Vec::new();
        let n = self.sessions.len();
        let mut i: usize = 0;
        while i < n
            invariant
                self == old(self),
                self.wf(),
                n == s0.len(),
                s0 == self.sessions@,
                i <= n,
                kept@ == remove_id(s0.take(i as int), session_id@),
            decreases n - i,
        {
            proof {
                s0.lemma_take_succ_push(i as int);
                assert(s0.take(i as int + 1) == s0.take(i as int).push(s0[i as int]));
                assert(s0.take(i as int + 1).drop_last() =~= s0.take(i as int));
            }
            let e = &self.sessions[i];
            if !(e.session_id == session_id) {
                kept.push(clone_entry(e));
            }
            i = i + 1;
        }
        proof {
            assert(s0.take(n as int) == s0);
        }
        let ghost kept1 = kept@;
        kept.push(
            SessionEntry { session_id, info: SessionInfo { user, display, last_activity: now } },
        );
        self.sessions = kept;
        proof {
            assert(self.sessions@.drop_last() =~= kept1);
            lemma_remove_id_props(s0, session_id@);
            assert(unique_ids(self.sessions@)) by {
                assert(forall|k: int|
                    0 <= k < kept1.len() ==> self.sessions@[k] == kept1[k]);
                assert(forall|k: int|
                    0 <= k < kept1.len() ==> (#[trigger] kept1[k]).session_id@ != session_id@);
                assert(self.sessions@[self.sessions@.len() - 1].session_id@ == session_id@);
            }
        }
    }

    /// Record activity for the session now: set its `last_activity` to
    /// `now` if the record exists, do nothing otherwise (a stale touch
    /// after eviction is expected and harmless).
    pub fn update_activity(&mut self, session_id: &String, now: u64)
        requires
            old(self).wf(),
        ensures
            final(self).wf(),
            !contains_id(old(self)@, session_id@) ==> *final(self) == *old(self),
            contains_id(old(self)@, session_id@) ==> {
                let i = index_of_id(old(self)@, session_id@);
                &&& final(self)@.len() == old(self)@.len()
                &&& final(self)@[i].session_id == old(self)@[i].session_id
                &&& final(self)@[i].info.user == old(self)@[i].info.user
                &&& final(self)@[i].info.display == old(self)@[i].info.display
                &&& final(self)@[i].info.last_activity == now
                &&& forall|j: int|
                    0 <= j < old(self)@.len() && j != i ==> final(self)@[j] == old(self)@[j]
            },
    {
        let ghost s0 = self.sessions@;
        let n = self.sessions.len();
        let mut i: usize = 0;
        while i < n
            invariant
                self == old(self),
                self.wf(),
                n == s0.len(),
                s0 == self.sessions@,
                i <= n,
                forall|j: int| 0 <= j < i ==> (#[trigger] s0[j]).session_id@ != session_id@,
            decreases n - i,
        {
            if self.sessions[i].session_id == *session_id {
                proof {
                    assert(contains_id(s0, session_id@));
                    assert forall|j: int|
                        0 <= j < s0.len() && (#[trigger] s0[j]).session_id@
                            == session_id@ implies j == i by {
                        if j < i as int {
                        } else if j > i as int {
                            assert(s0[i as int].session_id@ != s0[j].session_id@);
                        }
                    }
                    assert(index_of_id(s0, session_id@) == i as int);
                }
                self.sessions[i].info.last_activity = now;
                proof {
                    assert(unique_ids(self.sessions@)) by {
                        assert(forall|a: int, b: int|
                            0 <= a < b < self.sessions@.len() ==> (
                            #[trigger] self.sessions@[a]).session_id@ == s0[a].session_id@ && (
                            #[trigger] self.sessions@[b]).session_id@ == s0[b].session_id@);
                    }
                }
                return;
            }
            i = i + 1;
        }
        proof {
            if contains_id(s0, session_id@) {
                let j = choose|j: int| 0 <= j < s0.len() && (#[trigger] s0[j]).session_id@
                    == session_id@;
                assert(false);
            }
        }
    }

    /// Delete the session's record if present, returning the removed data;
    /// removing an absent identity is a no-op.
    pub fn remove_session(&mut self, session_id: &String) -> (removed: Option<SessionInfo>)
        requires
            old(self).wf(),
        ensures
            final(self).wf(),
            final(self)@ == remove_id(old(self)@, session_id@),
            removed is Some <==> contains_id(old(self)@, session_id@),
            contains_id(old(self)@, session_id@) ==> removed == Some(
                entry_of(old(self)@, session_id@).info,
            ),
    {
        let ghost s0 = self.sessions@;
        let mut kept: Vec<SessionEntry> = Vec::new();
        let mut removed: Option<SessionInfo> = None;
        let ghost mut found_idx: int = 0;
        let n = self.sessions.len();
        let mut i: usize = 0;
        while i < n
            invariant
                self == old(self),
                self.wf(),
                n == s0.len(),
                s0 == self.sessions@,
                i <= n,
                kept@ == remove_id(s0.take(i as int), session_id@),
                removed is Some <==> contains_id(s0.take(i as int), session_id@),
                removed is Some ==> 0 <= found_idx < i && s0[found_idx].session_id@ == session_id@
                    && removed == Some(s0[found_idx].info),
            decreases n - i,
        {
            proof {
                s0.lemma_take_succ_push(i as int);
                assert(s0.take(i as int + 1) == s0.take(i as int).push(s0[i as int]));
                assert(s0.take(i as int + 1).drop_last() =~= s0.take(i as int));
            }
            let e = &self.sessions[i];
            if e.session_id == *session_id {
                removed = Some(clone_info(&e.info));
                proof {
                    found_idx = i as int;
                    assert(s0.take(i as int + 1).last().session_id@ == session_id@);
                    assert(contains_id(s0.take(i as int + 1), session_id@)) by {
                        let t = s0.take(i as int + 1);
                        assert(t[t.len() - 1].session_id@ == session_id@);
                    }
                }
            } else {
                kept.push(clone_entry(e));
                proof {
                    assert(removed is Some <==> contains_id(s0.take(i as int + 1), session_id@))
                        by {
                        let t = s0.take(i as int + 1);
                        if contains_id(t, session_id@) && !contains_id(
                            s0.take(i as int),
                            session_id@,
                        ) {
                            let j = choose|j: int|
                                0 <= j < t.len() && (#[trigger] t[j]).session_id@ == session_id@;
                            assert(j == t.len() - 1);
                        }
                    }
                }
            }
            i = i + 1;
        }
        proof {
            assert(s0.take(n as int) == s0);
            lemma_remove_id_props(s0, session_id@);
            if contains_id(s0, session_id@) {
                assert forall|j: int|
                    0 <= j < s0.len() && (#[trigger] s0[j]).session_id@
                        == session_id@ implies j == found_idx by {
                    if j != found_idx {
                        assert(s0[found_idx].session_id@ != s0[j].session_id@);
                    }
                }
                assert(index_of_id(s0, session_id@) == found_idx);
            }
        }
        self.sessions = kept;
        removed
    }

    /// How many records belong to the user.
    pub fn get_user_session_count(&self, user: &String) -> (r: usize)
        ensures
            r == count_user(self@, user@),
    {
        let ghost s0 = self.sessions@;
        let n = self.sessions.len();
        let mut count: usize = 0;
        let mut i: usize = 0;
        while i < n
            invariant
                n == s0.len(),
                s0 == self.sessions@,
                i <= n,
                count <= i,
                count == count_user(s0.take(i as int), user@),
            decreases n - i,
        {
            proof {
                s0.lemma_take_succ_push(i as int);
                assert(s0.take(i as int + 1) == s0.take(i as int).push(s0[i as int]));
                assert(s0.take(i as int + 1).drop_last() =~= s0.take(i as int));
            }
            if self.sessions[i].info.user == *user {
                count = count + 1;
            }
            i = i + 1;
        }
        proof {
            assert(s0.take(n as int) == s0);
        }
        count
    }

    /// A copy of every record, in registry order.
    pub fn get_all_sessions(&self) -> (r: Vec<SessionEntry>)
        ensures
            r@ == self@,
    {
        let n = self.sessions.len();
        let mut out: Vec<SessionEntry> = Vec::new();
        let mut i: usize = 0;
        while i < n
            invariant
                n == self.sessions@.len(),
                i <= n,
                out@ == self.sessions@.take(i as int),
            decreases n - i,
        {
            proof {
                self.sessions@.lemma_take_succ_push(i as int);
            }
            out.push(clone_entry(&self.sessions[i]));
            i = i + 1;
        }
        proof {
            assert(self.sessions@.take(n as int) == self.sessions@);
        }
        out
    }

    /// The idle sweep: remove every record whose last activity lies more
    /// than `timeout` before `now`, release each evicted record's display
    /// number back to the pool, count each eviction in the metrics, and
    /// return the evicted records so the caller can report them.
    pub fn cleanup_idle_sessions(
        &mut self,
        now: u64,
        timeout: u64,
        pool: &mut DisplayPool,
        metrics: &mut XpraMetrics,
    ) -> (evicted: Vec<SessionEntry>)
        requires
            old(self).wf(),
            old(pool).wf(),
        ensures
            final(self).wf(),
            final(pool).wf(),
            final(pool).min_spec() == old(pool).min_spec(),
            final(pool).max_spec() == old(pool).max_spec(),
            final(self)@ == live_after_sweep(old(self)@, now, timeout),
            evicted@ == swept(old(self)@, now, timeout),
            final(pool).allocated() == old(pool).allocated().difference(displays_of(evicted@)),
            final(metrics).idle_spec() == sat_add(old(metrics).idle_spec(), evicted@.len()),
            final(metrics).active_spec() == sat_sub(old(metrics).active_spec(), evicted@.len()),
            final(metrics).total_spec() == old(metrics).total_spec(),
            final(metrics).failed_spec() == old(metrics).failed_spec(),
            final(metrics).start_spec() == old(metrics).start_spec(),
    {
        let ghost s0 = self.sessions@;
        let mut kept: Vec<SessionEntry> = Vec::new();
        let mut evicted: Vec<SessionEntry> = Vec::new();
        let n = self.sessions.len();
        let mut i: usize = 0;
        while i < n
            invariant
                self == old(self),
                self.wf(),
                n == s0.len(),
                s0 == self.sessions@,
                i <= n,
                kept@ == s0.take(i as int).filter(live_pred(now, timeout)),
                evicted@ == s0.take(i as int).filter(idle_pred(now, timeout)),
            decreases n - i,
        {
            proof {
                s0.lemma_take_succ_push(i as int);
                assert(s0.take(i as int + 1) == s0.take(i as int).push(s0[i as int]));
                s0.take(i as int).lemma_filter_push(s0[i as int], live_pred(now, timeout));
                s0.take(i as int).lemma_filter_push(s0[i as int], idle_pred(now, timeout));
            }
            let e = &self.sessions[i];
            let idle = e.info.last_activity < now && now - e.info.last_activity > timeout;
            proof {
                assert(idle == is_idle(s0[i as int], now, timeout));
            }
            if idle {
                evicted.push(clone_entry(e));
            } else {
                kept.push(clone_entry(e));
            }
            i = i + 1;
        }
        proof {
            assert(s0.take(n as int) == s0);
            lemma_filter_keeps_unique(s0, live_pred(now, timeout));
        }
        self.sessions = kept;

        // Give the evicted displays back and count the evictions.
        let ghost ev = evicted@;
        let ghost pool0 = *pool;
        let ghost m0 = *metrics;
        let k = evicted.len();
        let mut j: usize = 0;
        while j < k
            invariant
                k == ev.len(),
                ev == evicted@,
                j <= k,
                pool.wf(),
                pool.min_spec() == pool0.min_spec(),
                pool.max_spec() == pool0.max_spec(),
                pool.allocated() == pool0.allocated().difference(displays_of(ev.take(j as int))),
                metrics.idle_spec() == sat_add(m0.idle_spec(), j as nat),
                metrics.active_spec() == sat_sub(m0.active_spec(), j as nat),
                metrics.total_spec() == m0.total_spec(),
                metrics.failed_spec() == m0.failed_spec(),
                metrics.start_spec() == m0.start_spec(),
            decreases k - j,
        {
            proof {
                ev.lemma_take_succ_push(j as int);
                assert(ev.take(j as int + 1) == ev.take(j as int).push(ev[j as int]));
                assert(ev.take(j as int + 1).drop_last() =~= ev.take(j as int));
            }
            let d = evicted[j].info.display;
            pool.release(d);
            metrics.idle_terminated();
            proof {
                assert(pool.allocated() =~= pool0.allocated().difference(
                    displays_of(ev.take(j as int + 1)),
                ));
            }
            j = j + 1;
        }
        proof {
            assert(ev.take(k as int) == ev);
        }
        evicted
    }
}

/// An identical copy of the session data.
fn clone_info(info: &SessionInfo) -> (r: SessionInfo)
    ensures
        r == *info,
{
    SessionInfo {
        user: info.user.clone(),
        display: info.display,
        last_activity: info.last_activity,
    }
}

/// An identical copy of the record.
fn clone_entry(e: &SessionEntry) -> (r: SessionEntry)
    ensures
        r == *e,
{
    SessionEntry { session_id: e.session_id.clone(), info: clone_info(&e.info) }
}

} // verus!
