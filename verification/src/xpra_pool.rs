//! Bounded display-number allocator.
//!
//! The pool owns a closed range of display numbers and hands out unique
//! values: `allocate` scans the range in ascending order for the first
//! number not currently held, `release` gives a number back and is
//! idempotent. The set of held numbers is the single source of truth for
//! which displays are live.

use vstd::prelude::*;
use crate::XpraError;

verus! {

/// Lowest display number of the default range (starts high to avoid
/// colliding with displays of interactive logins).
pub const MIN_DISPLAY: u16 = 100;

/// Highest display number of the default range (room for 500 displays).
pub const MAX_DISPLAY: u16 = 599;

/// The first number of `[lo, max]` that is not in `s`, scanning upward.
pub open spec fn first_free_from(s: Set<u16>, lo: u16, max: u16) -> Option<u16>
    decreases max - lo,
{
    if lo > max {
        None
    } else if !s.contains(lo) {
        Some(lo)
    } else if lo == max {
        None
    } else {
        first_free_from(s, (lo + 1) as u16, max)
    }
}

/// What one `allocate` or `release` call does to the allocated set.
pub enum AllocatorOp {
    /// One `allocate` call.
    Allocate,
    /// One `release` call of the given number.
    Release(u16),
}

/// The allocated set after one operation: an allocation inserts the first
/// free number of the range (and does nothing when the range is exhausted);
/// a release removes the number.
pub open spec fn apply_allocator_op(s: Set<u16>, op: AllocatorOp, min: u16, max: u16) -> Set<u16> {
    match op {
        AllocatorOp::Allocate => match first_free_from(s, min, max) {
            Some(d) => s.insert(d),
            None => s,
        },
        AllocatorOp::Release(d) => s.remove(d),
    }
}

/// The allocated set after a sequence of operations, applied in order.
pub open spec fn apply_allocator_ops(s: Set<u16>, ops: Seq<AllocatorOp>, min: u16, max: u16) -> Set<
    u16,
>
    decreases ops.len(),
{
    if ops.len() == 0 {
        s
    } else {
        apply_allocator_ops(apply_allocator_op(s, ops.first(), min, max), ops.drop_first(), min, max)
    }
}

/// A sequence of operations in which every allocation succeeds and every
/// release gives back a number that is held at that moment.
pub open spec fn allocator_ops_valid(s: Set<u16>, ops: Seq<AllocatorOp>, min: u16, max: u16) -> bool
    decreases ops.len(),
{
    if ops.len() == 0 {
        true
    } else {
        let ok = match ops.first() {
            AllocatorOp::Allocate => first_free_from(s, min, max) is Some,
            AllocatorOp::Release(d) => s.contains(d),
        };
        ok && allocator_ops_valid(apply_allocator_op(s, ops.first(), min, max), ops.drop_first(), min, max)
    }
}

/// How many of the operations are allocations.
pub open spec fn count_allocations(ops: Seq<AllocatorOp>) -> nat
    decreases ops.len(),
{
    if ops.len() == 0 {
        0
    } else {
        count_allocations(ops.drop_first()) + match ops.first() {
            AllocatorOp::Allocate => 1nat,
            AllocatorOp::Release(_) => 0nat,
        }
    }
}

/// How many of the operations are releases.
pub open spec fn count_releases(ops: Seq<AllocatorOp>) -> nat
    decreases ops.len(),
{
    if ops.len() == 0 {
        0
    } else {
        count_releases(ops.drop_first()) + match ops.first() {
            AllocatorOp::Allocate => 0nat,
            AllocatorOp::Release(_) => 1nat,
        }
    }
}

/// Everything the upward scan guarantees about its result: a found number is
/// in range, not held, and every number below it in range is held; no number
/// is found only when the whole range is held.
pub proof fn lemma_first_free_properties(s: Set<u16>, lo: u16, max: u16)
    ensures
        match first_free_from(s, lo, max) {
            Some(d) => {
                &&& lo <= d <= max
                &&& !s.contains(d)
                &&& forall|e: u16| lo <= e < d ==> s.contains(e)
            },
            None => forall|e: u16| lo <= e <= max ==> s.contains(e),
        },
    decreases max - lo,
{
    if lo > max {
    } else if !s.contains(lo) {
    } else if lo == max {
    } else {
        lemma_first_free_properties(s, (lo + 1) as u16, max);
    }
}

/// The converse: a number that is free while everything below it in the
/// range is held is exactly what the scan returns.
pub proof fn lemma_first_free_reaches(s: Set<u16>, lo: u16, d: u16, max: u16)
    requires
        lo <= d <= max,
        forall|e: u16| lo <= e < d ==> s.contains(e),
        !s.contains(d),
    ensures
        first_free_from(s, lo, max) == Some(d),
    decreases d - lo,
{
    if lo < d {
        assert(s.contains(lo));
        lemma_first_free_reaches(s, (lo + 1) as u16, d, max);
    }
}

/// Law: when every number of the range is held, the scan yields no number —
/// allocating past full capacity reports exhaustion instead of reusing a
/// held number.
pub proof fn lemma_allocate_exhausted(s: Set<u16>, lo: u16, max: u16)
    requires
        forall|e: u16| lo <= e <= max ==> s.contains(e),
    ensures
        first_free_from(s, lo, max) is None,
    decreases max - lo,
{
    if lo <= max {
        assert(s.contains(lo));
        if lo < max {
            lemma_allocate_exhausted(s, (lo + 1) as u16, max);
        }
    }
}

/// Law: `allocate` never hands out a number that is still held. Whatever
/// allocated set earlier calls have produced, the number the scan finds is
/// not in that set.
pub proof fn lemma_allocate_returns_unheld(s: Set<u16>, min: u16, max: u16, d: u16)
    requires
        first_free_from(s, min, max) == Some(d),
    ensures
        !s.contains(d),
        min <= d <= max,
{
    lemma_first_free_properties(s, min, max);
}

/// Law: after any sequence of `allocate` and `release` calls, the number
/// the next successful allocation hands out is not one that is still held.
pub proof fn lemma_allocate_fresh_after_any_ops(
    s: Set<u16>,
    ops: Seq<AllocatorOp>,
    min: u16,
    max: u16,
    d: u16,
)
    requires
        first_free_from(apply_allocator_ops(s, ops, min, max), min, max) == Some(d),
    ensures
        !apply_allocator_ops(s, ops, min, max).contains(d),
        min <= d <= max,
{
    lemma_allocate_returns_unheld(apply_allocator_ops(s, ops, min, max), min, max, d);
}

/// Law: releasing a number that is not held leaves the allocated set — and
/// with it the count of the other allocated numbers — unchanged.
pub proof fn lemma_release_unheld_is_noop(s: Set<u16>, d: u16)
    requires
        !s.contains(d),
    ensures
        s.remove(d) == s,
{
    assert(s.remove(d) =~= s);
}

/// Law: over any sequence of successful allocations and releases of held
/// numbers, the allocated count changes by exactly the number of
/// allocations minus the number of releases. From an empty pool, `k`
/// allocations and `j <= k` releases leave the count at `k - j`.
pub proof fn lemma_allocated_count_balance(s: Set<u16>, ops: Seq<AllocatorOp>, min: u16, max: u16)
    requires
        s.finite(),
        allocator_ops_valid(s, ops, min, max),
    ensures
        apply_allocator_ops(s, ops, min, max).finite(),
        apply_allocator_ops(s, ops, min, max).len() + count_releases(ops) == s.len()
            + count_allocations(ops),
    decreases ops.len(),
{
    broadcast use vstd::set::group_set_axioms;

    if ops.len() > 0 {
        let s1 = apply_allocator_op(s, ops.first(), min, max);
        match ops.first() {
            AllocatorOp::Allocate => {
                let d = first_free_from(s, min, max)->Some_0;
                lemma_first_free_properties(s, min, max);
                assert(s1.len() == s.len() + 1);
            },
            AllocatorOp::Release(d) => {
                assert(s1.len() + 1 == s.len());
            },
        }
        lemma_allocated_count_balance(s1, ops.drop_first(), min, max);
    }
}

/// The bounded display-number allocator: a set of currently-held numbers
/// drawn from the closed range `[min_display, max_display]`.
pub struct DisplayPool {
    used_displays: Vec<u16>,
    min_display: u16,
    max_display: u16,
}

impl DisplayPool {
    /// The set of display numbers currently handed out.
    pub closed spec fn allocated(self) -> Set<u16> {
        self.used_displays@.to_set()
    }

    /// Lower bound of the pool's range.
    pub closed spec fn min_spec(self) -> u16 {
        self.min_display
    }

    /// Upper bound of the pool's range.
    pub closed spec fn max_spec(self) -> u16 {
        self.max_display
    }

    /// The pool's invariant: the range is non-empty, no number is recorded
    /// twice, and every recorded number lies in the range.
    pub closed spec fn wf(self) -> bool {
        &&& self.min_display <= self.max_display
        &&& self.used_displays@.no_duplicates()
        &&& forall|i: int|
            0 <= i < self.used_displays@.len() ==> self.min_display
                <= #[trigger] self.used_displays@[i] <= self.max_display
    }

    /// A fresh pool over the default display range, with nothing allocated.
    pub fn new() -> (r: Self)
        ensures
            r.wf(),
            r.allocated() == Set::<u16>::empty(),
            r.min_spec() == MIN_DISPLAY,
            r.max_spec() == MAX_DISPLAY,
    {
        Self::with_range(MIN_DISPLAY, MAX_DISPLAY)
    }

    /// A fresh pool over the closed range `[min_display, max_display]`.
    pub fn with_range(min_display: u16, max_display: u16) -> (r: Self)
        requires
            min_display <= max_display,
        ensures
            r.wf(),
            r.allocated() == Set::<u16>::empty(),
            r.min_spec() == min_display,
            r.max_spec() == max_display,
    {
        let pool = DisplayPool { used_displays: Vec::new(), min_display, max_display };
        proof {
            assert(pool.allocated() =~= Set::<u16>::empty());
        }
        pool
    }

    /// Lower bound of the pool's range.
    pub fn min_display(&self) -> (r: u16)
        ensures
            r == self.min_spec(),
    {
        self.min_display
    }

    /// Upper bound of the pool's range.
    pub fn max_display(&self) -> (r: u16)
        ensures
            r == self.max_spec(),
    {
        self.max_display
    }

    /// Hand out the first free number of the range, or report that the range
    /// is exhausted — a capacity condition, distinct from any internal
    /// error, so that callers can reject new sessions instead of crashing.
    /// The number returned is never one that is still held.
    pub fn allocate(&mut self) -> (r: Result<u16, XpraError>)
        requires
            old(self).wf(),
        ensures
            final(self).wf(),
            final(self).min_spec() == old(self).min_spec(),
            final(self).max_spec() == old(self).max_spec(),
            match r {
                Ok(d) => {
                    &&& Some(d) == first_free_from(
                        old(self).allocated(),
                        old(self).min_spec(),
                        old(self).max_spec(),
                    )
                    &&& old(self).min_spec() <= d <= old(self).max_spec()
                    &&& !old(self).allocated().contains(d)
                    &&& forall|e: u16|
                        old(self).min_spec() <= e < d ==> old(self).allocated().contains(e)
                    &&& final(self).allocated() == old(self).allocated().insert(d)
                },
                Err(err) => {
                    &&& err == XpraError::Exhausted
                    &&& forall|e: u16|
                        old(self).min_spec() <= e <= old(self).max_spec() ==> old(
                            self,
                        ).allocated().contains(e)
                    &&& *final(self) == *old(self)
                },
            },
    {
        let mut d: u16 = self.min_display;
        loop
            invariant
                self == old(self),
                self.wf(),
                self.min_display <= d <= self.max_display,
                forall|e: u16| self.min_display <= e < d ==> self.allocated().contains(e),
            decreases self.max_display - d,
        {
            if !vec_contains_u16(&self.used_displays, d) {
                proof {
                    assert(!self.allocated().contains(d));
                    lemma_first_free_reaches(
                        self.allocated(),
                        self.min_display,
                        d,
                        self.max_display,
                    );
                }
                let ghost prev = self.used_displays@;
                self.used_displays.push(d);
                proof {
                    prev.lemma_push_to_set_commute(d);
                    assert(self.used_displays@.no_duplicates()) by {
                        assert(forall|i: int|
                            0 <= i < prev.len() ==> #[trigger] self.used_displays@[i] == prev[i]);
                        assert(forall|i: int| 0 <= i < prev.len() ==> prev[i] != d) by {
                            assert(forall|i: int|
                                0 <= i < prev.len() && prev[i] == d ==> prev.contains(d));
                        }
                    }
                }
                return Ok(d);
            }
            if d == self.max_display {
                proof {
                    lemma_allocate_exhausted(self.allocated(), self.min_display, self.max_display);
                }
                return Err(XpraError::Exhausted);
            }
            d = d + 1;
        }
    }

    /// Give a number back to the pool. Releasing a number that is not held
    /// is a harmless no-op, reported through the result so that a caller can
    /// flag the upstream lifecycle bug; it never panics or corrupts state.
    pub fn release(&mut self, display: u16) -> (was_held: bool)
        requires
            old(self).wf(),
        ensures
            final(self).wf(),
            final(self).min_spec() == old(self).min_spec(),
            final(self).max_spec() == old(self).max_spec(),
            was_held == old(self).allocated().contains(display),
            final(self).allocated() == old(self).allocated().remove(display),
    {
        let ghost s0 = self.used_displays@;
        let mut kept: Vec<u16> = Vec::new();
        let mut found = false;
        let n = self.used_displays.len();
        let mut i: usize = 0;
        while i < n
            invariant
                self == old(self),
                self.wf(),
                n == s0.len(),
                s0 == self.used_displays@,
                i <= n,
                kept@.no_duplicates(),
                forall|j: int|
                    0 <= j < kept@.len() ==> self.min_display <= #[trigger] kept@[j]
                        <= self.max_display,
                forall|e: u16|
                    kept@.contains(e) <==> (s0.take(i as int).contains(e) && e != display),
                found == s0.take(i as int).contains(display),
            decreases n - i,
        {
            let x = self.used_displays[i];
            proof {
                s0.lemma_take_succ_push(i as int);
            }
            if x == display {
                found = true;
                proof {
                    assert(s0.take(i as int + 1).contains(display)) by {
                        assert(s0.take(i as int + 1).last() == display);
                    }
                    assert forall|e: u16| kept@.contains(e) implies (s0.take(
                        i as int + 1,
                    ).contains(e) && e != display) by {
                        vstd::seq_lib::lemma_seq_contains_after_push(s0.take(i as int), x, e);
                    }
                    assert forall|e: u16|
                        s0.take(i as int + 1).contains(e) && e != display implies kept@.contains(
                        e,
                    ) by {
                        vstd::seq_lib::lemma_seq_contains_after_push(s0.take(i as int), x, e);
                    }
                }
            } else {
                proof {
                    assert(!kept@.contains(x)) by {
                        if kept@.contains(x) {
                            let j = choose|j: int|
                                0 <= j < s0.take(i as int).len() && s0.take(i as int)[j] == x;
                            assert(s0[j] == s0[i as int]);
                        }
                    }
                }
                let ghost kept0 = kept@;
                kept.push(x);
                proof {
                    assert forall|e: u16| kept@.contains(e) implies (s0.take(
                        i as int + 1,
                    ).contains(e) && e != display) by {
                        vstd::seq_lib::lemma_seq_contains_after_push(kept0, x, e);
                        vstd::seq_lib::lemma_seq_contains_after_push(s0.take(i as int), x, e);
                    }
                    assert forall|e: u16|
                        s0.take(i as int + 1).contains(e) && e != display implies kept@.contains(
                        e,
                    ) by {
                        vstd::seq_lib::lemma_seq_contains_after_push(kept0, x, e);
                        vstd::seq_lib::lemma_seq_contains_after_push(s0.take(i as int), x, e);
                    }
                    assert(kept@.no_duplicates());
                    assert(found == s0.take(i as int + 1).contains(display)) by {
                        vstd::seq_lib::lemma_seq_contains_after_push(s0.take(i as int), x, display);
                    }
                }
            }
            i = i + 1;
        }
        proof {
            assert(s0.take(n as int) == s0);
            assert(kept@.to_set() =~= s0.to_set().remove(display));
        }
        self.used_displays = kept;
        found
    }

    /// How many numbers are currently handed out; a snapshot for
    /// diagnostics.
    pub fn allocated_count(&self) -> (r: usize)
        requires
            self.wf(),
        ensures
            r == self.allocated().len(),
    {
        proof {
            self.used_displays@.unique_seq_to_set();
        }
        self.used_displays.len()
    }
}

impl Default for DisplayPool {
    /// Same as `DisplayPool::new`.
    fn default() -> (r: Self)
        ensures
            r.wf(),
            r.allocated() == Set::<u16>::empty(),
            r.min_spec() == MIN_DISPLAY,
            r.max_spec() == MAX_DISPLAY,
    {
        Self::new()
    }
}

/// Whether the vector holds the value.
fn vec_contains_u16(v: &Vec<u16>, x: u16) -> (r: bool)
    ensures
        r == v@.contains(x),
{
    let n = v.len();
    let mut i: usize = 0;
    while i < n
        invariant
            i <= n,
            n == v@.len(),
            forall|j: int| 0 <= j < i ==> v@[j] != x,
        decreases n - i,
    {
        if v[i] == x {
            return true;
        }
        i = i + 1;
    }
    false
}

} // verus!
