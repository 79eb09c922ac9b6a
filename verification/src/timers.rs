use crate::poller_base::Clock;
use std::collections::HashSet;
use vstd::prelude::*;

verus! {

broadcast use vstd::std_specs::hash::group_hash_axioms;

/// The mark of a live timer set.
pub const TIMERS_TAG: u32 = 0xCAFEDADA;

/// A timer: its id and how many milliseconds it waits each time. What it
/// calls when it fires stays with the caller, by the id.
#[derive(Debug, Clone, Copy, PartialEq, Eq, Structural)]
pub struct Timer {
    pub timer_id: i32,
    pub interval: usize,
}

/// Why a request on a timer was refused.
#[derive(Debug, Clone, Copy, PartialEq, Eq, Structural)]
pub enum TimersError {
    /// No timer has this id.
    InvalidTimerId,
    /// The timer is already cancelled.
    AlreadyCancelled,
}

/// Whether the due times strictly increase along `s`: a map kept in key
/// order.
pub open spec fn sorted(s: Seq<(u64, Timer)>) -> bool {
    forall|i: int, j: int| 0 <= i < j < s.len() ==> #[trigger] s[i].0 < #[trigger] s[j].0
}

/// The first index at or after `i` whose due time is not below `k`.
pub open spec fn pos_from(s: Seq<(u64, Timer)>, k: u64, i: int) -> int
    decreases s.len() - i,
{
    if 0 <= i < s.len() && s[i].0 < k {
        pos_from(s, k, i + 1)
    } else {
        i
    }
}

/// Puts `t` under the due time `k`, in key order, replacing the timer that
/// was there.
pub open spec fn map_insert(s: Seq<(u64, Timer)>, k: u64, t: Timer) -> Seq<(u64, Timer)> {
    let p = pos_from(s, k, 0);
    if p < s.len() && s[p].0 == k {
        s.update(p, (k, t))
    } else {
        s.insert(p, (k, t))
    }
}

/// `s` with `t` set to fall due one interval of its own after `now`.
pub open spec fn arm(s: Seq<(u64, Timer)>, now: u64, t: Timer) -> Seq<(u64, Timer)> {
    map_insert(s, now.wrapping_add(t.interval as u64), t)
}

/// Whether some timer of `s` has the id `id`.
pub open spec fn has_id(s: Seq<(u64, Timer)>, id: i32) -> bool {
    exists|i: int| 0 <= i < s.len() && #[trigger] s[i].1.timer_id == id
}

/// The first index at or after `i` holding a timer with id `id` (or the
/// length).
pub open spec fn find_id_from(s: Seq<(u64, Timer)>, id: i32, i: int) -> int
    decreases s.len() - i,
{
    if 0 <= i < s.len() && s[i].1.timer_id != id {
        find_id_from(s, id, i + 1)
    } else {
        i
    }
}

/// Whether a timer has an id other than `id`.
pub open spec fn other_than(id: i32) -> spec_fn((u64, Timer)) -> bool {
    |e: (u64, Timer)| e.1.timer_id != id
}

/// Whether a timer fires at `now` (see `fires`).
pub open spec fn fires_at(now: u64, cancelled: Set<i32>) -> spec_fn((u64, Timer)) -> bool {
    |e: (u64, Timer)| fires(e, now, cancelled)
}

/// Whether a timer stays where it is at `now`.
pub open spec fn stays_at(now: u64, cancelled: Set<i32>) -> spec_fn((u64, Timer)) -> bool {
    |e: (u64, Timer)| !fires(e, now, cancelled)
}

/// Whether a timer's id is not in the cancelled set.
pub open spec fn live_in(cancelled: Set<i32>) -> spec_fn((u64, Timer)) -> bool {
    |e: (u64, Timer)| !cancelled.contains(e.1.timer_id)
}

/// `s` without the timers with id `id`.
pub open spec fn without_id(s: Seq<(u64, Timer)>, id: i32) -> Seq<(u64, Timer)> {
    s.filter(other_than(id))
}

/// Walking `s` in key order, drops each timer whose id is in the cancelled
/// set, taking the id out of the set: what is kept, and the set left.
pub open spec fn sweep(s: Seq<(u64, Timer)>, cancelled: Set<i32>) -> (Seq<(u64, Timer)>, Set<i32>)
    decreases s.len(),
{
    if s.len() == 0 {
        (s, cancelled)
    } else {
        let (kept, c) = sweep(s.drop_last(), cancelled);
        let e = s.last();
        if c.contains(e.1.timer_id) {
            (kept, c.remove(e.1.timer_id))
        } else {
            (kept.push(e), c)
        }
    }
}

/// Milliseconds from `now` until `when`, 0 if it has passed.
pub open spec fn wait_until(when: u64, now: u64) -> i64 {
    if when <= now {
        0
    } else if when - now > i64::MAX {
        i64::MAX
    } else {
        (when - now) as i64
    }
}

/// Whether a timer has fired at `now`: it is due and not cancelled.
pub open spec fn fires(e: (u64, Timer), now: u64, cancelled: Set<i32>) -> bool {
    e.0 <= now && !cancelled.contains(e.1.timer_id)
}

/// The timers of `s` that fire at `now`, in key order.
pub open spec fn fired(s: Seq<(u64, Timer)>, now: u64, cancelled: Set<i32>) -> Seq<(u64, Timer)> {
    s.filter(fires_at(now, cancelled))
}

/// The timers themselves that fire in `s` at `now`, in key order.
pub open spec fn fired_timers(s: Seq<(u64, Timer)>, now: u64, cancelled: Set<i32>) -> Seq<Timer> {
    fired(s, now, cancelled).map_values(|e: (u64, Timer)| e.1)
}

/// The timers of `s` that stay where they are at `now`.
pub open spec fn staying(s: Seq<(u64, Timer)>, now: u64, cancelled: Set<i32>) -> Seq<(u64, Timer)> {
    s.filter(stays_at(now, cancelled))
}

/// `s` with each timer of `xs` put back, in order, one interval after `now`.
pub open spec fn rearm(s: Seq<(u64, Timer)>, xs: Seq<(u64, Timer)>, now: u64) -> Seq<(u64, Timer)>
    decreases xs.len(),
{
    if xs.len() == 0 {
        s
    } else {
        arm(rearm(s, xs.drop_last(), now), now, xs.last().1)
    }
}

proof fn lemma_map_insert_sorted(s: Seq<(u64, Timer)>, k: u64, t: Timer, i: int)
    requires
        sorted(s),
        0 <= i <= s.len(),
        forall|j: int| 0 <= j < i ==> #[trigger] s[j].0 < k,
        i < s.len() ==> s[i].0 >= k,
    ensures
        pos_from(s, k, 0) == i,
        sorted(map_insert(s, k, t)),
{
    lemma_pos_from(s, k, 0, i);
    let r = map_insert(s, k, t);
    if i < s.len() && s[i].0 == k {
        assert forall|a: int, b: int| 0 <= a < b < r.len() implies #[trigger] r[a].0 < #[trigger] r[b].0 by {
            assert(s[a].0 < s[b].0);
        }
    } else {
        assert forall|a: int, b: int| 0 <= a < b < r.len() implies #[trigger] r[a].0 < #[trigger] r[b].0 by {
            if b < i {
                assert(s[a].0 < s[b].0);
            } else if b == i {
            } else if a < i {
                assert(r[b] == s[b - 1]);
                if b - 1 > i {
                    assert(s[i].0 < s[b - 1].0);
                }
            } else if a == i {
                assert(r[b] == s[b - 1]);
                if b - 1 > i {
                    assert(s[i].0 < s[b - 1].0);
                }
            } else {
                assert(s[a - 1].0 < s[b - 1].0);
            }
        }
    }
}

proof fn lemma_pos_from(s: Seq<(u64, Timer)>, k: u64, from: int, i: int)
    requires
        0 <= from <= i <= s.len(),
        forall|j: int| from <= j < i ==> #[trigger] s[j].0 < k,
        i < s.len() ==> s[i].0 >= k,
    ensures
        pos_from(s, k, from) == i,
    decreases i - from,
{
    if from < i {
        lemma_pos_from(s, k, from + 1, i);
    }
}

/// Inserts `t` under `k` into the sorted vector `v`, as `map_insert` says.
fn insert_timer(v: &mut Vec<(u64, Timer)>, k: u64, t: Timer)
    requires
        sorted(old(v)@),
    ensures
        final(v)@ == map_insert(old(v)@, k, t),
        sorted(final(v)@),
{
    let ghost s = v@;
    let mut i: usize = 0;
    while i < v.len() && v[i].0 < k
        invariant
            i <= s.len(),
            v@ == s,
            forall|j: int| 0 <= j < i ==> #[trigger] s[j].0 < k,
        decreases s.len() - i,
    {
        i += 1;
    }
    proof {
        lemma_map_insert_sorted(s, k, t, i as int);
    }
    if i < v.len() && v[i].0 == k {
        v.set(i, (k, t));
    } else {
        v.insert(i, (k, t));
    }
}

proof fn lemma_filter_sorted(s: Seq<(u64, Timer)>, f: spec_fn((u64, Timer)) -> bool)
    requires
        sorted(s),
    ensures
        sorted(s.filter(f)),
    decreases s.len(),
{
    reveal(Seq::filter);
    if s.len() > 0 {
        let init = s.drop_last();
        assert(sorted(init));
        lemma_filter_sorted(init, f);
        let fi = init.filter(f);
        if f(s.last()) {
            assert forall|x: (u64, Timer)| fi.contains(x) implies x.0 < s.last().0 by {
                init.lemma_filter_contains_rev(f, x);
                let j = choose|j: int| 0 <= j < init.len() && init[j] == x;
                assert(s[j] == init[j]);
                assert(s[j].0 < s[s.len() - 1].0);
            }
            let r = s.filter(f);
            assert(r == fi.push(s.last()));
            assert forall|a: int, b: int| 0 <= a < b < r.len() implies #[trigger] r[a].0 < #[trigger] r[b].0 by {
                if b == r.len() - 1 {
                    assert(fi.contains(r[a]));
                } else {
                    assert(fi[a].0 < fi[b].0);
                }
            }
        }
    }
}

/// Keeps the elements of `s` for which `keep` holds, where `keep` is
/// `!(e.1.timer_id == id)`.
fn remove_id(v: &Vec<(u64, Timer)>, id: i32) -> (r: Vec<(u64, Timer)>)
    requires
        sorted(v@),
    ensures
        r@ == without_id(v@, id),
        sorted(r@),
{
    let ghost s = v@;
    let ghost keep = other_than(id);
    let mut r: Vec<(u64, Timer)> = Vec::new();
    let mut i: usize = 0;
    while i < v.len()
        invariant
            i <= s.len(),
            v@ == s,
            keep == other_than(id),
            r@ == s.take(i as int).filter(keep),
        decreases s.len() - i,
    {
        let e = v[i];
        proof {
            assert(s.take(i + 1).drop_last() =~= s.take(i as int));
            s.take(i as int).lemma_filter_push(e, keep);
            assert(s.take(i + 1) =~= s.take(i as int).push(e));
        }
        if e.1.timer_id != id {
            r.push(e);
        }
        i += 1;
    }
    proof {
        assert(s.take(s.len() as int) =~= s);
        lemma_filter_sorted(s, keep);
    }
    r
}

/// A set of timers, kept in the order they fall due. A timer set for the
/// same millisecond as another takes its place.
pub struct Timers {
    tag: u32,
    next_timer_id: i32,
    timers: Vec<(u64, Timer)>,
    cancelled_timers: HashSet<i32>,
}

impl Timers {
    /// The timers with their due times, in key order.
    pub closed spec fn entries(&self) -> Seq<(u64, Timer)> {
        self.timers@
    }

    /// The ids of the cancelled timers not yet swept away.
    pub closed spec fn cancelled(&self) -> Set<i32> {
        self.cancelled_timers@
    }

    /// The id the last timer added got (0 before any).
    pub closed spec fn last_id(&self) -> i32 {
        self.next_timer_id
    }

    pub closed spec fn tag_value(&self) -> u32 {
        self.tag
    }

    /// The timers are in key order, no two share an id, and none has an id
    /// above the last one given out.
    pub open spec fn wf(&self) -> bool {
        &&& sorted(self.entries())
        &&& distinct_ids(self.entries())
        &&& ids_up_to(self.entries(), self.last_id())
    }

    pub fn new() -> (t: Self)
        ensures
            t.wf(),
            t.entries() == Seq::<(u64, Timer)>::empty(),
            t.cancelled() == Set::<i32>::empty(),
            t.last_id() == 0,
            t.tag_value() == TIMERS_TAG,
    {
        Timers { tag: TIMERS_TAG, next_timer_id: 0, timers: Vec::new(), cancelled_timers: HashSet::new() }
    }

    /// The id the last timer added got (0 before any).
    pub fn current_id(&self) -> (n: i32)
        ensures
            n == self.last_id(),
    {
        self.next_timer_id
    }

    /// Whether this is a live timer set.
    pub fn check_tag(&self) -> (b: bool)
        ensures
            b == (self.tag_value() == TIMERS_TAG),
    {
        self.tag == TIMERS_TAG
    }

    /// Adds a timer that falls due `interval` milliseconds after `now`, with
    /// the next id, and returns that id.
    pub fn add_at(&mut self, now: u64, interval: usize) -> (id: i32)
        requires
            old(self).wf(),
            old(self).last_id() < i32::MAX,
        ensures
            final(self).wf(),
            id == old(self).last_id() + 1,
            final(self).last_id() == id,
            final(self).entries() == arm(old(self).entries(), now, Timer { timer_id: id, interval }),
            final(self).cancelled() == old(self).cancelled(),
            final(self).tag_value() == old(self).tag_value(),
    {
        self.next_timer_id += 1;
        let timer = Timer { timer_id: self.next_timer_id, interval };
        let when = now.wrapping_add(interval as u64);
        let ghost s = self.timers@;
        insert_timer(&mut self.timers, when, timer);
        proof {
            lemma_map_insert_ids(s, when, timer);
            if has_id(s, timer.timer_id) {
                let j = choose|j: int| 0 <= j < s.len() && #[trigger] s[j].1.timer_id == timer.timer_id;
                assert(s[j].1.timer_id <= old(self).last_id());
            }
            lemma_ids_bound(self.timers@, s, timer.timer_id, self.next_timer_id);
            assert(ids_up_to(s, self.next_timer_id));
        }
        self.next_timer_id
    }

    /// Adds a timer that falls due `interval` milliseconds from now, by the
    /// clock, and returns its id.
    pub fn add(&mut self, interval: usize) -> (id: i32)
        requires
            old(self).wf(),
            old(self).last_id() < i32::MAX,
        ensures
            final(self).wf(),
            id == old(self).last_id() + 1,
            final(self).last_id() == id,
            exists|now: u64|
                final(self).entries() == #[trigger] arm(
                    old(self).entries(),
                    now,
                    Timer { timer_id: id, interval },
                ),
            final(self).cancelled() == old(self).cancelled(),
            final(self).tag_value() == old(self).tag_value(),
    {
        let now = Clock {}.now_ms();
        self.add_at(now, interval)
    }

    fn find_timer(&self, id: i32) -> (r: usize)
        ensures
            r == find_id_from(self.entries(), id, 0),
    {
        let mut i: usize = 0;
        while i < self.timers.len() && self.timers[i].1.timer_id != id
            invariant
                i <= self.timers@.len(),
                find_id_from(self.timers@, id, 0) == find_id_from(self.timers@, id, i as int),
            decreases self.timers@.len() - i,
        {
            i += 1;
        }
        i
    }

    /// Marks the timer `id` cancelled: it is dropped the next time the
    /// timers are looked at.
    pub fn cancel(&mut self, timer_id: i32) -> (r: Result<(), TimersError>)
        requires
            old(self).wf(),
        ensures
            final(self).wf(),
            final(self).entries() == old(self).entries(),
            final(self).last_id() == old(self).last_id(),
            final(self).tag_value() == old(self).tag_value(),
            !has_id(old(self).entries(), timer_id) ==> r == Err::<(), TimersError>(
                TimersError::InvalidTimerId,
            ) && final(self).cancelled() == old(self).cancelled(),
            has_id(old(self).entries(), timer_id) && old(self).cancelled().contains(timer_id)
                ==> r == Err::<(), TimersError>(TimersError::AlreadyCancelled)
                && final(self).cancelled() == old(self).cancelled(),
            has_id(old(self).entries(), timer_id) && !old(self).cancelled().contains(timer_id)
                ==> r is Ok && final(self).cancelled() == old(self).cancelled().insert(timer_id),
    {
        let i = self.find_timer(timer_id);
        proof {
            lemma_find_id(self.entries(), timer_id, 0);
        }
        if i >= self.timers.len() {
            return Err(TimersError::InvalidTimerId);
        }
        if self.cancelled_timers.contains(&timer_id) {
            return Err(TimersError::AlreadyCancelled);
        }
        self.cancelled_timers.insert(timer_id);
        Ok(())
    }

    /// Gives the timer `id` a new interval and sets it to fall due that long
    /// after `now`.
    pub fn set_interval_at(&mut self, now: u64, timer_id: i32, interval: usize) -> (r: Result<(), TimersError>)
        requires
            old(self).wf(),
        ensures
            final(self).wf(),
            final(self).cancelled() == old(self).cancelled(),
            final(self).last_id() == old(self).last_id(),
            final(self).tag_value() == old(self).tag_value(),
            !has_id(old(self).entries(), timer_id) ==> r == Err::<(), TimersError>(
                TimersError::InvalidTimerId,
            ) && final(self).entries() == old(self).entries(),
            has_id(old(self).entries(), timer_id) ==> r is Ok && final(self).entries() == arm(
                without_id(old(self).entries(), timer_id),
                now,
                Timer { timer_id, interval },
            ),
    {
        let i = self.find_timer(timer_id);
        proof {
            lemma_find_id(self.entries(), timer_id, 0);
        }
        if i >= self.timers.len() {
            return Err(TimersError::InvalidTimerId);
        }
        let mut timer = self.timers[i].1;
        let ghost s = self.timers@;
        let mut rest = remove_id(&self.timers, timer_id);
        timer.interval = interval;
        let when = now.wrapping_add(interval as u64);
        let ghost w = rest@;
        insert_timer(&mut rest, when, timer);
        proof {
            lemma_without_id(s, timer_id);
            lemma_map_insert_ids(w, when, timer);
            assert(s[i as int].1.timer_id <= self.next_timer_id);
            assert forall|x: i32| has_id(rest@, x) implies has_id(s, x) || x == timer_id by {}
            lemma_ids_bound(rest@, s, timer_id, self.next_timer_id);
        }
        self.timers = rest;
        Ok(())
    }

    /// Gives the timer `id` a new interval, counted from now by the clock.
    pub fn set_interval(&mut self, timer_id: i32, interval: usize) -> (r: Result<(), TimersError>)
        requires
            old(self).wf(),
        ensures
            final(self).wf(),
            final(self).cancelled() == old(self).cancelled(),
            final(self).last_id() == old(self).last_id(),
            final(self).tag_value() == old(self).tag_value(),
            !has_id(old(self).entries(), timer_id) ==> r == Err::<(), TimersError>(
                TimersError::InvalidTimerId,
            ) && final(self).entries() == old(self).entries(),
            has_id(old(self).entries(), timer_id) ==> r is Ok && exists|now: u64|
                final(self).entries() == #[trigger] arm(
                    without_id(old(self).entries(), timer_id),
                    now,
                    Timer { timer_id, interval },
                ),
    {
        let now = Clock {}.now_ms();
        self.set_interval_at(now, timer_id, interval)
    }

    /// Sets the timer `id` to fall due one interval after `now`.
    pub fn reset_at(&mut self, now: u64, timer_id: i32) -> (r: Result<(), TimersError>)
        requires
            old(self).wf(),
        ensures
            final(self).wf(),
            final(self).cancelled() == old(self).cancelled(),
            final(self).last_id() == old(self).last_id(),
            final(self).tag_value() == old(self).tag_value(),
            !has_id(old(self).entries(), timer_id) ==> r == Err::<(), TimersError>(
                TimersError::InvalidTimerId,
            ) && final(self).entries() == old(self).entries(),
            has_id(old(self).entries(), timer_id) ==> ({
                let t = old(self).entries()[find_id_from(old(self).entries(), timer_id, 0)].1;
                r is Ok && final(self).entries() == arm(without_id(old(self).entries(), timer_id), now, t)
            }),
    {
        let i = self.find_timer(timer_id);
        proof {
            lemma_find_id(self.entries(), timer_id, 0);
        }
        if i >= self.timers.len() {
            return Err(TimersError::InvalidTimerId);
        }
        let timer = self.timers[i].1;
        let ghost s = self.timers@;
        let mut rest = remove_id(&self.timers, timer_id);
        let when = now.wrapping_add(timer.interval as u64);
        let ghost w = rest@;
        insert_timer(&mut rest, when, timer);
        proof {
            lemma_without_id(s, timer_id);
            lemma_map_insert_ids(w, when, timer);
            assert(s[i as int].1.timer_id <= self.next_timer_id);
            assert forall|x: i32| has_id(rest@, x) implies has_id(s, x) || x == timer_id by {}
            lemma_ids_bound(rest@, s, timer_id, self.next_timer_id);
        }
        self.timers = rest;
        Ok(())
    }

    /// Sets the timer `id` to fall due one interval from now, by the clock.
    pub fn reset(&mut self, timer_id: i32) -> (r: Result<(), TimersError>)
        requires
            old(self).wf(),
        ensures
            final(self).wf(),
            final(self).cancelled() == old(self).cancelled(),
            final(self).last_id() == old(self).last_id(),
            final(self).tag_value() == old(self).tag_value(),
            !has_id(old(self).entries(), timer_id) ==> r == Err::<(), TimersError>(
                TimersError::InvalidTimerId,
            ) && final(self).entries() == old(self).entries(),
            has_id(old(self).entries(), timer_id) ==> ({
                let t = old(self).entries()[find_id_from(old(self).entries(), timer_id, 0)].1;
                r is Ok && exists|now: u64|
                    final(self).entries() == #[trigger] arm(
                        without_id(old(self).entries(), timer_id),
                        now,
                        t,
                    )
            }),
    {
        let now = Clock {}.now_ms();
        self.reset_at(now, timer_id)
    }

    /// Drops the cancelled timers, clearing their ids from the cancelled set,
    /// and says how many milliseconds after `now` the first timer left falls
    /// due (0 if it is due already, -1 if none is left).
    pub fn timeout_at(&mut self, now: u64) -> (r: i64)
        requires
            old(self).wf(),
        ensures
            final(self).wf(),
            ({
                let (kept, c) = sweep(old(self).entries(), old(self).cancelled());
                &&& final(self).entries() == kept
                &&& final(self).cancelled() == c
                &&& r == if kept.len() > 0 {
                    wait_until(kept[0].0, now)
                } else {
                    -1i64
                }
            }),
            final(self).entries() == old(self).entries().filter(live_in(old(self).cancelled())),
            final(self).cancelled() == old(self).cancelled().difference(ids(old(self).entries())),
            final(self).last_id() == old(self).last_id(),
            final(self).tag_value() == old(self).tag_value(),
    {
        let ghost s = self.timers@;
        let ghost c0 = self.cancelled_timers@;
        let mut kept: Vec<(u64, Timer)> = Vec::new();
        let mut result: i64 = -1;
        let mut i: usize = 0;
        while i < self.timers.len()
            invariant
                i <= s.len(),
                self.timers@ == s,
                sorted(s),
                sweep(s.take(i as int), c0) == (kept@, self.cancelled_timers@),
                result == (if kept@.len() > 0 { wait_until(kept@[0].0, now) } else { -1i64 }),
                sorted(kept@),
                forall|j: int| 0 <= j < kept@.len() ==> #[trigger] kept@[j].0 < (if i < s.len() { s[i as int].0 as int } else { u64::MAX as int + 1 }),
                self.tag == old(self).tag,
                self.next_timer_id == old(self).next_timer_id,
            decreases s.len() - i,
        {
            let e = self.timers[i];
            proof {
                assert(s.take(i + 1).drop_last() =~= s.take(i as int));
                assert(s.take(i + 1).last() == e);
                if i + 1 < s.len() {
                    assert(s[i as int].0 < s[i + 1].0);
                }
            }
            if self.cancelled_timers.remove(&e.1.timer_id) {
            } else {
                if result == -1 {
                    result = if e.0 <= now {
                        0
                    } else if e.0 - now > i64::MAX as u64 {
                        i64::MAX
                    } else {
                        (e.0 - now) as i64
                    };
                }
                kept.push(e);
            }
            i += 1;
        }
        proof {
            assert(s.take(s.len() as int) =~= s);
            law_sweep_drops_the_cancelled(s, c0);
            lemma_filter_ids(s, live_in(c0));
            assert forall|x: i32| has_id(kept@, x) implies has_id(s, x) || x == self.next_timer_id by {
                let i = choose|i: int| 0 <= i < s.len() && s[i].1.timer_id == x && live_in(c0)(s[i]);
                assert(s[i].1.timer_id == x);
            }
            lemma_ids_bound(kept@, s, self.next_timer_id, self.next_timer_id);
        }
        self.timers = kept;
        result
    }

    /// Drops the cancelled timers and says how many milliseconds from now,
    /// by the clock, the first timer left falls due (0 if it is due already,
    /// -1 if none is left).
    pub fn timeout(&mut self) -> (r: i64)
        requires
            old(self).wf(),
        ensures
            final(self).wf(),
            ({
                let (kept, c) = sweep(old(self).entries(), old(self).cancelled());
                &&& final(self).entries() == kept
                &&& final(self).cancelled() == c
                &&& (kept.len() == 0 <==> r == -1)
                &&& r >= -1
            }),
            final(self).entries() == old(self).entries().filter(live_in(old(self).cancelled())),
            final(self).cancelled() == old(self).cancelled().difference(ids(old(self).entries())),
            final(self).last_id() == old(self).last_id(),
            final(self).tag_value() == old(self).tag_value(),
    {
        let now = Clock {}.now_ms();
        self.timeout_at(now)
    }

    /// Fires the timers due at `now` that are not cancelled, in the order
    /// they fall due, and sets each to fall due again one interval after
    /// `now`. Returns the timers fired; the caller runs what they stand for.
    pub fn execute_at(&mut self, now: u64) -> (r: Vec<Timer>)
        requires
            old(self).wf(),
        ensures
            final(self).wf(),
            ({
                let s = old(self).entries();
                let c = old(self).cancelled();
                &&& r@ == fired_timers(s, now, c)
                &&& final(self).entries() == rearm(staying(s, now, c), fired(s, now, c), now)
            }),
            final(self).cancelled() == old(self).cancelled(),
            final(self).last_id() == old(self).last_id(),
            final(self).tag_value() == old(self).tag_value(),
    {
        let ghost s = self.timers@;
        let ghost c = self.cancelled_timers@;
        let ghost fire = fires_at(now, c);
        let ghost stay = stays_at(now, c);
        let mut expired: Vec<(u64, Timer)> = Vec::new();
        let mut rest: Vec<(u64, Timer)> = Vec::new();
        let mut i: usize = 0;
        while i < self.timers.len()
            invariant
                i <= s.len(),
                self.timers@ == s,
                self.cancelled_timers@ == c,
                fire == fires_at(now, c),
                stay == stays_at(now, c),
                expired@ == s.take(i as int).filter(fire),
                rest@ == s.take(i as int).filter(stay),
            decreases s.len() - i,
        {
            let e = self.timers[i];
            proof {
                assert(s.take(i + 1).drop_last() =~= s.take(i as int));
                s.take(i as int).lemma_filter_push(e, fire);
                s.take(i as int).lemma_filter_push(e, stay);
                assert(s.take(i + 1) =~= s.take(i as int).push(e));
            }
            if e.0 <= now && !self.cancelled_timers.contains(&e.1.timer_id) {
                expired.push(e);
            } else {
                rest.push(e);
            }
            i += 1;
        }
        proof {
            assert(s.take(s.len() as int) =~= s);
            lemma_filter_sorted(s, stay);
            lemma_filter_ids(s, stay);
            lemma_filter_ids(s, fire);
            assert forall|x: i32| !(#[trigger] has_id(rest@, x) && has_id(expired@, x)) by {
                if has_id(rest@, x) && has_id(expired@, x) {
                    let a = choose|a: int| 0 <= a < s.len() && s[a].1.timer_id == x && stay(s[a]);
                    let b = choose|b: int| 0 <= b < s.len() && s[b].1.timer_id == x && fire(s[b]);
                    if a < b {
                        assert(s[a].1.timer_id != s[b].1.timer_id);
                    } else if b < a {
                        assert(s[b].1.timer_id != s[a].1.timer_id);
                    }
                }
            }
        }
        let ghost stay_seq = rest@;
        let mut fired_timers: Vec<Timer> = Vec::new();
        let mut j: usize = 0;
        while j < expired.len()
            invariant
                j <= expired@.len(),
                expired@ == fired(s, now, c),
                stay_seq == staying(s, now, c),
                sorted(rest@),
                rest@ == rearm(staying(s, now, c), expired@.take(j as int), now),
                fired_timers@ == expired@.take(j as int).map_values(|e: (u64, Timer)| e.1),
                distinct_ids(rest@),
                distinct_ids(expired@),
                forall|x: i32| !(#[trigger] has_id(stay_seq, x) && has_id(expired@, x)),
                forall|x: i32| #[trigger] has_id(rest@, x) ==> has_id(stay_seq, x) || exists|k: int|
                    0 <= k < j && expired@[k].1.timer_id == x,
            decreases expired@.len() - j,
        {
            let t = expired[j].1;
            proof {
                assert(expired@.take(j + 1).drop_last() =~= expired@.take(j as int));
                assert(expired@.take(j + 1).last().1 == t);
                assert(has_id(expired@, t.timer_id));
                if has_id(rest@, t.timer_id) {
                    if !has_id(stay_seq, t.timer_id) {
                        let k = choose|k: int| 0 <= k < j && expired@[k].1.timer_id == t.timer_id;
                        assert(expired@[k].1.timer_id != expired@[j as int].1.timer_id);
                    }
                }
            }
            let ghost before = rest@;
            let when = now.wrapping_add(t.interval as u64);
            insert_timer(&mut rest, when, t);
            proof {
                lemma_map_insert_ids(before, when, t);
                assert forall|x: i32| #[trigger] has_id(rest@, x) implies has_id(stay_seq, x) || exists|k: int|
                    0 <= k < j + 1 && expired@[k].1.timer_id == x by {
                    if x == t.timer_id {
                        assert(expired@[j as int].1.timer_id == x);
                    } else {
                        assert(has_id(before, x));
                    }
                }
            }
            fired_timers.push(t);
            j += 1;
            proof {
                assert(fired_timers@ =~= expired@.take(j as int).map_values(|e: (u64, Timer)| e.1));
            }
        }
        proof {
            assert(expired@.take(expired@.len() as int) =~= expired@);
            assert forall|x: i32| has_id(rest@, x) implies has_id(s, x) || x == self.next_timer_id by {
                if has_id(stay_seq, x) {
                    let a = choose|a: int| 0 <= a < s.len() && s[a].1.timer_id == x && stay(s[a]);
                    assert(s[a].1.timer_id == x);
                } else {
                    let k = choose|k: int| 0 <= k < j && expired@[k].1.timer_id == x;
                    assert(has_id(expired@, x));
                    let b = choose|b: int| 0 <= b < s.len() && s[b].1.timer_id == x && fire(s[b]);
                    assert(s[b].1.timer_id == x);
                }
            }
            lemma_ids_bound(rest@, s, self.next_timer_id, self.next_timer_id);
        }
        self.timers = rest;
        fired_timers
    }

    /// Fires the timers due by the clock that are not cancelled, and sets
    /// each to fall due again one interval later. Returns the timers fired.
    pub fn execute(&mut self) -> (r: Vec<Timer>)
        requires
            old(self).wf(),
        ensures
            final(self).wf(),
            exists|now: u64|
                r@ == #[trigger] fired_timers(old(self).entries(), now, old(self).cancelled())
                    && final(self).entries() == rearm(
                    staying(old(self).entries(), now, old(self).cancelled()),
                    fired(old(self).entries(), now, old(self).cancelled()),
                    now,
                ),
            final(self).cancelled() == old(self).cancelled(),
            final(self).last_id() == old(self).last_id(),
            final(self).tag_value() == old(self).tag_value(),
    {
        let now = Clock {}.now_ms();
        self.execute_at(now)
    }
}

/// Whether no two timers of `s` share an id.
pub open spec fn distinct_ids(s: Seq<(u64, Timer)>) -> bool {
    forall|i: int, j: int|
        0 <= i < j < s.len() ==> #[trigger] s[i].1.timer_id != #[trigger] s[j].1.timer_id
}

/// Whether no timer of `s` has an id above `last`.
pub open spec fn ids_up_to(s: Seq<(u64, Timer)>, last: i32) -> bool {
    forall|i: int| 0 <= i < s.len() ==> #[trigger] s[i].1.timer_id <= last
}

proof fn lemma_map_insert_ids(s: Seq<(u64, Timer)>, k: u64, t: Timer)
    ensures
        forall|x: i32| has_id(map_insert(s, k, t), x) ==> has_id(s, x) || x == t.timer_id,
        distinct_ids(s) && !has_id(s, t.timer_id) ==> distinct_ids(map_insert(s, k, t)),
{
    let p = pos_from(s, k, 0);
    lemma_pos_from_bounds(s, k, 0);
    let r = map_insert(s, k, t);
    if p < s.len() && s[p].0 == k {
        assert forall|x: i32| has_id(r, x) implies has_id(s, x) || x == t.timer_id by {
            let j = choose|j: int| 0 <= j < r.len() && #[trigger] r[j].1.timer_id == x;
            if j != p {
                assert(s[j].1.timer_id == x);
            }
        }
        if distinct_ids(s) && !has_id(s, t.timer_id) {
            assert forall|a: int, b: int| 0 <= a < b < r.len() implies #[trigger] r[a].1.timer_id != #[trigger] r[b].1.timer_id by {
                if a == p {
                    assert(s[b].1.timer_id != t.timer_id);
                } else if b == p {
                    assert(s[a].1.timer_id != t.timer_id);
                } else {
                    assert(s[a].1.timer_id != s[b].1.timer_id);
                }
            }
        }
    } else {
        assert forall|x: i32| has_id(r, x) implies has_id(s, x) || x == t.timer_id by {
            let j = choose|j: int| 0 <= j < r.len() && #[trigger] r[j].1.timer_id == x;
            if j < p {
                assert(s[j].1.timer_id == x);
            } else if j > p {
                assert(s[j - 1].1.timer_id == x);
            }
        }
        if distinct_ids(s) && !has_id(s, t.timer_id) {
            assert forall|a: int, b: int| 0 <= a < b < r.len() implies #[trigger] r[a].1.timer_id != #[trigger] r[b].1.timer_id by {
                let a0 = if a < p { a } else { a - 1 };
                let b0 = if b < p { b } else { b - 1 };
                if a == p {
                    assert(s[b0].1.timer_id != t.timer_id);
                } else if b == p {
                    assert(s[a0].1.timer_id != t.timer_id);
                } else {
                    assert(r[a] == s[a0] && r[b] == s[b0]);
                    assert(s[a0].1.timer_id != s[b0].1.timer_id);
                }
            }
        }
    }
}

/// Where every id of `r` is one of `s` or `extra`, and `s`'s ids and
/// `extra` are at most `last`, so are `r`'s.
proof fn lemma_ids_bound(r: Seq<(u64, Timer)>, s: Seq<(u64, Timer)>, extra: i32, last: i32)
    requires
        forall|x: i32| has_id(r, x) ==> has_id(s, x) || x == extra,
        ids_up_to(s, last),
        extra <= last,
    ensures
        ids_up_to(r, last),
{
    assert forall|i: int| 0 <= i < r.len() implies #[trigger] r[i].1.timer_id <= last by {
        let x = r[i].1.timer_id;
        assert(has_id(r, x));
        if has_id(s, x) {
            let j = choose|j: int| 0 <= j < s.len() && #[trigger] s[j].1.timer_id == x;
            assert(s[j].1.timer_id <= last);
        }
    }
}

/// Dropping the timers with id `id` keeps the others' ids apart, leaves no
/// timer with that id, and adds no id.
proof fn lemma_without_id(s: Seq<(u64, Timer)>, id: i32)
    ensures
        distinct_ids(s) ==> distinct_ids(without_id(s, id)),
        !has_id(without_id(s, id), id),
        forall|x: i32| has_id(without_id(s, id), x) ==> has_id(s, x),
{
    lemma_filter_ids(s, other_than(id));
    assert forall|x: i32| has_id(without_id(s, id), x) implies has_id(s, x) by {
        let i = choose|i: int| 0 <= i < s.len() && s[i].1.timer_id == x && other_than(id)(s[i]);
        assert(s[i].1.timer_id == x);
    }
    if has_id(without_id(s, id), id) {
        let i = choose|i: int| 0 <= i < s.len() && s[i].1.timer_id == id && other_than(id)(s[i]);
        assert(false);
    }
}

proof fn lemma_pos_from_bounds(s: Seq<(u64, Timer)>, k: u64, i: int)
    requires
        0 <= i <= s.len(),
    ensures
        i <= pos_from(s, k, i) <= s.len(),
    decreases s.len() - i,
{
    if i < s.len() && s[i].0 < k {
        lemma_pos_from_bounds(s, k, i + 1);
    }
}

proof fn lemma_filter_ids(s: Seq<(u64, Timer)>, f: spec_fn((u64, Timer)) -> bool)
    ensures
        forall|x: i32| #[trigger] has_id(s.filter(f), x) ==> exists|i: int|
            0 <= i < s.len() && s[i].1.timer_id == x && f(s[i]),
        distinct_ids(s) ==> distinct_ids(s.filter(f)),
    decreases s.len(),
{
    reveal(Seq::filter);
    if s.len() > 0 {
        let init = s.drop_last();
        lemma_filter_ids(init, f);
        let fi = init.filter(f);
        let r = s.filter(f);
        assert forall|x: i32| #[trigger] has_id(r, x) implies exists|i: int|
            0 <= i < s.len() && s[i].1.timer_id == x && f(s[i]) by {
            let j = choose|j: int| 0 <= j < r.len() && #[trigger] r[j].1.timer_id == x;
            if f(s.last()) && j == r.len() - 1 {
                assert(r[j] == s.last());
                assert(s[s.len() - 1].1.timer_id == x);
            } else {
                assert(r[j] == fi[j]);
                assert(has_id(fi, x));
                let i = choose|i: int| 0 <= i < init.len() && init[i].1.timer_id == x && f(init[i]);
                assert(s[i] == init[i]);
            }
        }
        if distinct_ids(s) {
            assert(distinct_ids(init));
            if f(s.last()) {
                assert forall|a: int, b: int| 0 <= a < b < r.len() implies #[trigger] r[a].1.timer_id != #[trigger] r[b].1.timer_id by {
                    if b == r.len() - 1 {
                        assert(has_id(fi, r[a].1.timer_id));
                        let i = choose|i: int| 0 <= i < init.len() && init[i].1.timer_id == r[a].1.timer_id && f(init[i]);
                        assert(s[i].1.timer_id != s[s.len() - 1].1.timer_id);
                    } else {
                        assert(fi[a].1.timer_id != fi[b].1.timer_id);
                    }
                }
            }
        }
    }
}

/// The ids of the timers of `s`.
pub open spec fn ids(s: Seq<(u64, Timer)>) -> Set<i32> {
    Set::new(|id: i32| has_id(s, id))
}

/// Timers whose ids are all different: looking for the first due timer
/// drops exactly the cancelled ones, keeps the rest in order, and clears
/// from the cancelled set the ids of the timers it dropped.
pub proof fn law_sweep_drops_the_cancelled(s: Seq<(u64, Timer)>, c: Set<i32>)
    requires
        distinct_ids(s),
    ensures
        sweep(s, c).0 == s.filter(live_in(c)),
        sweep(s, c).1 == c.difference(ids(s)),
    decreases s.len(),
{
    let p = live_in(c);
    if s.len() == 0 {
        assert(s.filter(p) =~= s);
        assert(c.difference(ids(s)) =~= c);
    } else {
        let init = s.drop_last();
        let e = s.last();
        assert(distinct_ids(init));
        law_sweep_drops_the_cancelled(init, c);
        assert(s =~= init.push(e));
        init.lemma_filter_push(e, p);
        assert(!has_id(init, e.1.timer_id)) by {
            if has_id(init, e.1.timer_id) {
                let j = choose|j: int| 0 <= j < init.len() && #[trigger] init[j].1.timer_id == e.1.timer_id;
                assert(s[j].1.timer_id != s[s.len() - 1].1.timer_id);
            }
        }
        assert forall|id: i32| #[trigger] has_id(s, id) == (has_id(init, id) || id == e.1.timer_id) by {
            if has_id(s, id) {
                let j = choose|j: int| 0 <= j < s.len() && #[trigger] s[j].1.timer_id == id;
                if j < s.len() - 1 {
                    assert(init[j].1.timer_id == id);
                }
            }
            if has_id(init, id) {
                let j = choose|j: int| 0 <= j < init.len() && #[trigger] init[j].1.timer_id == id;
                assert(s[j].1.timer_id == id);
            }
            if id == e.1.timer_id {
                assert(s[s.len() - 1].1.timer_id == id);
            }
        }
        let (k, c1) = sweep(init, c);
        if c1.contains(e.1.timer_id) {
            assert(c1.remove(e.1.timer_id) =~= c.difference(ids(s)));
        } else {
            assert(c1 =~= c.difference(ids(s)));
        }
    }
}

/// A timer fires only where it is due and not cancelled, and every such
/// timer fires.
pub proof fn law_only_live_due_timers_fire(s: Seq<(u64, Timer)>, now: u64, c: Set<i32>)
    ensures
        forall|i: int|
            0 <= i < fired(s, now, c).len() ==> #[trigger] fired(s, now, c)[i].0 <= now
                && !c.contains(fired(s, now, c)[i].1.timer_id),
        forall|i: int|
            0 <= i < s.len() && s[i].0 <= now && !c.contains(s[i].1.timer_id)
                ==> #[trigger] fired(s, now, c).contains(s[i]),
{
    let f = fires_at(now, c);
    s.filter_lemma(f);
}

proof fn lemma_find_id(s: Seq<(u64, Timer)>, id: i32, i: int)
    requires
        0 <= i <= s.len(),
    ensures
        i <= find_id_from(s, id, i) <= s.len(),
        find_id_from(s, id, i) < s.len() ==> s[find_id_from(s, id, i)].1.timer_id == id,
        forall|k: int| i <= k < find_id_from(s, id, i) ==> s[k].1.timer_id != id,
        i == 0 ==> (has_id(s, id) <==> find_id_from(s, id, 0) < s.len()),
    decreases s.len() - i,
{
    if i < s.len() && s[i].1.timer_id != id {
        lemma_find_id(s, id, i + 1);
    }
    if i == 0 && has_id(s, id) {
        let j = choose|j: int| 0 <= j < s.len() && #[trigger] s[j].1.timer_id == id;
        assert(find_id_from(s, id, 0) <= j);
    }
}

} // verus!
