use std::time::{SystemTime, UNIX_EPOCH};
use vstd::prelude::*;

verus! {

#[verifier::external_type_specification]
#[verifier::external_body]
pub struct ExSystemTime(std::time::SystemTime);

/// Reads the system clock with `SystemTime::now`.
///
/// Trusted: nothing is claimed of the time it returns.
#[verifier::external_body]
fn system_time_now() -> SystemTime {
    SystemTime::now()
}

/// Whole milliseconds from the Unix epoch to `t`, by
/// `SystemTime::duration_since(UNIX_EPOCH)` and `Duration::as_millis`;
/// `None` where the call reports an error (a time before the epoch).
///
/// Trusted: nothing is claimed of the number beyond its type, nor of when
/// the call reports an error: both depend on the clock.
#[verifier::external_body]
fn millis_since_unix_epoch(t: &SystemTime) -> Option<u64> {
    match t.duration_since(UNIX_EPOCH) {
        Ok(d) => Some(d.as_millis() as u64),
        Err(_) => None,
    }
}

/// What a timer's owner is told when it fires.
pub trait IPollEvents {
    fn timer_event(&mut self, id: i32);
}

/// A timer: the owner it belongs to, by its number, and the id the owner
/// gave it.
#[derive(Debug, Clone, Copy, PartialEq, Eq, Structural)]
pub struct TimerInfo {
    pub sink: u64,
    pub id: i32,
}

/// The wall clock.
pub struct Clock {}

impl Clock {
    /// Milliseconds since the Unix epoch, as the system clock says; a clock
    /// set before the epoch reads as the epoch itself, 0.
    pub fn now_ms(&self) -> u64 {
        let t = system_time_now();
        match millis_since_unix_epoch(&t) {
            Some(ms) => ms,
            None => 0,
        }
    }
}

/// Whether expiration times strictly increase along `s`.
pub open spec fn sorted(s: Seq<(u64, TimerInfo)>) -> bool {
    forall|i: int, j: int| 0 <= i < j < s.len() ==> #[trigger] s[i].0 < #[trigger] s[j].0
}

/// The timers as a map from expiration time.
pub open spec fn as_map(s: Seq<(u64, TimerInfo)>) -> Map<u64, TimerInfo> {
    Map::new(
        |k: u64| exists|i: int| 0 <= i < s.len() && s[i].0 == k,
        |k: u64| s[choose|i: int| 0 <= i < s.len() && s[i].0 == k].1,
    )
}

/// How many of the timers in `s` have expired at `now`.
pub open spec fn expired_count(s: Seq<(u64, TimerInfo)>, now: u64) -> int
    decreases s.len(),
{
    if s.len() == 0 || s[0].0 > now {
        0
    } else {
        1 + expired_count(s.drop_first(), now)
    }
}

/// Whether a timer is not the one of `sink` with id `id`.
pub open spec fn not_timer_of(sink: u64, id: i32) -> spec_fn((u64, TimerInfo)) -> bool {
    |t: (u64, TimerInfo)| !(t.1.sink == sink && t.1.id == id)
}

/// When a timer set at `now` for `timeout` ms is due: the sum taken as
/// unsigned 64-bit numbers, wrapping past the top.
pub open spec fn timer_due(now: u64, timeout: i32) -> u64 {
    vstd::wrapping::u64_specs::wrapping_add(now, timeout as u64)
}

/// Whether running the timers `s` at `now` fires `fired` and leaves `left`:
/// the expired timers are taken out; they fire only where no timer is left,
/// and are dropped unfired where one is still to come.
pub open spec fn executed_at(s: Seq<(u64, TimerInfo)>, now: u64, fired: Seq<TimerInfo>, left: Seq<(u64, TimerInfo)>) -> bool {
    let n = expired_count(s, now);
    &&& fired == (if n < s.len() {
        Seq::<TimerInfo>::empty()
    } else {
        s.take(n).map_values(|t: (u64, TimerInfo)| t.1)
    })
    &&& left == s.skip(n)
}

/// How long from `now` until the first of the timers `left` (0 if none).
pub open spec fn next_wait(left: Seq<(u64, TimerInfo)>, now: u64) -> u64 {
    if left.len() > 0 {
        (left[0].0 - now) as u64
    } else {
        0
    }
}

proof fn lemma_map_index(s: Seq<(u64, TimerInfo)>, i: int)
    requires
        sorted(s),
        0 <= i < s.len(),
    ensures
        as_map(s).contains_key(s[i].0),
        as_map(s)[s[i].0] == s[i].1,
{
    let k = s[i].0;
    assert(exists|j: int| 0 <= j < s.len() && s[j].0 == k);
    let j = choose|j: int| 0 <= j < s.len() && s[j].0 == k;
    if j < i {
        assert(s[j].0 < s[i].0);
    } else if j > i {
        assert(s[i].0 < s[j].0);
    }
}

/// The timers that fire at `now` are exactly those due by then, and they
/// come first: every timer before the cut is due, every one after it is
/// not.
pub proof fn law_expired_are_the_due_ones(s: Seq<(u64, TimerInfo)>, now: u64)
    requires
        sorted(s),
    ensures
        0 <= expired_count(s, now) <= s.len(),
        forall|i: int| 0 <= i < expired_count(s, now) ==> #[trigger] s[i].0 <= now,
        forall|i: int| expired_count(s, now) <= i < s.len() ==> #[trigger] s[i].0 > now,
    decreases s.len(),
{
    if s.len() > 0 && s[0].0 <= now {
        let t = s.drop_first();
        assert(sorted(t)) by {
            assert forall|i: int, j: int| 0 <= i < j < t.len() implies #[trigger] t[i].0 < #[trigger] t[j].0 by {
                assert(s[i + 1].0 < s[j + 1].0);
            }
        }
        law_expired_are_the_due_ones(t, now);
        assert forall|i: int| 0 <= i < expired_count(s, now) implies #[trigger] s[i].0 <= now by {
            if i > 0 {
                assert(s[i] == t[i - 1]);
            }
        }
        assert forall|i: int| expired_count(s, now) <= i < s.len() implies #[trigger] s[i].0 > now by {
            assert(s[i] == t[i - 1]);
        }
    } else if s.len() > 0 {
        assert forall|i: int| expired_count(s, now) <= i < s.len() implies #[trigger] s[i].0 > now by {
            if i > 0 {
                assert(s[0].0 < s[i].0);
            }
        }
    }
}

/// The timers and the load of a poller: how many descriptors it watches.
pub struct PollerBase {
    clock: Clock,
    timers: Vec<(u64, TimerInfo)>,
    load: i32,
}

impl PollerBase {
    /// The timers, by increasing expiration time.
    pub closed spec fn timers(&self) -> Seq<(u64, TimerInfo)> {
        self.timers@
    }

    pub closed spec fn spec_load(&self) -> i32 {
        self.load
    }

    pub open spec fn wf(&self) -> bool {
        sorted(self.timers())
    }

    pub fn new() -> (p: Self)
        ensures
            p.wf(),
            p.timers() == Seq::<(u64, TimerInfo)>::empty(),
            p.spec_load() == 0,
    {
        PollerBase { clock: Clock {}, timers: Vec::new(), load: 0 }
    }

    pub fn get_load(&self) -> (n: i32)
        ensures
            n == self.spec_load(),
    {
        self.load
    }

    /// Changes the load by `amount`.
    pub fn adjust_load(&mut self, amount: i32)
        requires
            i32::MIN <= old(self).spec_load() + amount <= i32::MAX,
        ensures
            final(self).spec_load() == old(self).spec_load() + amount,
            final(self).timers() == old(self).timers(),
    {
        self.load = self.load + amount;
    }

    /// Sets a timer to fire `timeout` ms from now (the sum wraps as
    /// unsigned numbers do).  A timer already set for the same moment is
    /// replaced.
    pub fn add_timer(&mut self, timeout: i32, sink: u64, id: i32)
        requires
            old(self).wf(),
        ensures
            final(self).wf(),
            exists|now: u64|
                as_map(final(self).timers()) == as_map(old(self).timers()).insert(
                    #[trigger] timer_due(now, timeout),
                    TimerInfo { sink, id },
                ),
            final(self).spec_load() == old(self).spec_load(),
    {
        let now = self.clock.now_ms();
        let expiration = now.wrapping_add(timeout as u64);
        self.add_timer_at(expiration, sink, id);
        assert(expiration == timer_due(now, timeout));
    }

    /// Sets a timer to fire at `expiration`, replacing one set for the same
    /// moment.
    pub fn add_timer_at(&mut self, expiration: u64, sink: u64, id: i32)
        requires
            old(self).wf(),
        ensures
            final(self).wf(),
            as_map(final(self).timers()) == as_map(old(self).timers()).insert(
                expiration,
                TimerInfo { sink, id },
            ),
            final(self).spec_load() == old(self).spec_load(),
    {
        let info = TimerInfo { sink, id };
        let mut i: usize = 0;
        while i < self.timers.len() && self.timers[i].0 < expiration
            invariant
                i <= self.timers@.len(),
                self.timers@ == old(self).timers@,
                sorted(self.timers@),
                forall|j: int| 0 <= j < i ==> #[trigger] self.timers@[j].0 < expiration,
            decreases self.timers@.len() - i,
        {
            i += 1;
        }
        let ghost s = self.timers@;
        if i < self.timers.len() && self.timers[i].0 == expiration {
            self.timers.set(i, (expiration, info));
            proof {
                let t = self.timers@;
                assert(t == s.update(i as int, (expiration, info)));
                assert forall|a: int, b: int| 0 <= a < b < t.len() implies #[trigger] t[a].0 < #[trigger] t[b].0 by {
                    assert(s[a].0 < s[b].0);
                }
                assert(as_map(t) =~= as_map(s).insert(expiration, info)) by {
                    assert forall|k: u64| #[trigger] as_map(t).contains_key(k) == as_map(s).insert(expiration, info).contains_key(k) by {
                        if k == expiration {
                            assert(t[i as int].0 == k);
                        }
                        if exists|j: int| 0 <= j < t.len() && t[j].0 == k {
                            let j = choose|j: int| 0 <= j < t.len() && t[j].0 == k;
                            if j != i {
                                assert(s[j].0 == k);
                            }
                        }
                        if exists|j: int| 0 <= j < s.len() && s[j].0 == k {
                            let j = choose|j: int| 0 <= j < s.len() && s[j].0 == k;
                            if j != i {
                                assert(t[j].0 == k);
                            }
                        }
                    }
                    assert forall|k: u64| #[trigger] as_map(t).contains_key(k) implies as_map(t)[k] == as_map(s).insert(expiration, info)[k] by {
                        let j = choose|j: int| 0 <= j < t.len() && t[j].0 == k;
                        lemma_map_index(t, j);
                        if j != i {
                            lemma_map_index(s, j);
                        }
                    }
                }
            }
        } else {
            self.timers.insert(i, (expiration, info));
            proof {
                let t = self.timers@;
                assert(t == s.insert(i as int, (expiration, info)));
                assert forall|a: int, b: int| 0 <= a < b < t.len() implies #[trigger] t[a].0 < #[trigger] t[b].0 by {
                    if b < i {
                        assert(s[a].0 < s[b].0);
                    } else if b == i {
                    } else if a < i {
                        assert(t[b] == s[b - 1]);
                        if b - 1 > i {
                            assert(s[i as int].0 < s[b - 1].0);
                        }
                    } else if a == i {
                        assert(t[b] == s[b - 1]);
                        if b - 1 > i {
                            assert(s[i as int].0 < s[b - 1].0);
                        }
                    } else {
                        assert(s[a - 1].0 < s[b - 1].0);
                    }
                }
                assert(as_map(t) =~= as_map(s).insert(expiration, info)) by {
                    assert forall|k: u64| #[trigger] as_map(t).contains_key(k) == as_map(s).insert(expiration, info).contains_key(k) by {
                        if k == expiration {
                            assert(t[i as int].0 == k);
                        }
                        if exists|j: int| 0 <= j < t.len() && t[j].0 == k {
                            let j = choose|j: int| 0 <= j < t.len() && t[j].0 == k;
                            if j < i {
                                assert(s[j].0 == k);
                            } else if j > i {
                                assert(s[j - 1].0 == k);
                            }
                        }
                        if exists|j: int| 0 <= j < s.len() && s[j].0 == k {
                            let j = choose|j: int| 0 <= j < s.len() && s[j].0 == k;
                            if j < i {
                                assert(t[j].0 == k);
                            } else {
                                assert(t[j + 1].0 == k);
                            }
                        }
                    }
                    assert forall|k: u64| #[trigger] as_map(t).contains_key(k) implies as_map(t)[k] == as_map(s).insert(expiration, info)[k] by {
                        let j = choose|j: int| 0 <= j < t.len() && t[j].0 == k;
                        lemma_map_index(t, j);
                        if j < i {
                            lemma_map_index(s, j);
                        } else if j > i {
                            lemma_map_index(s, j - 1);
                        }
                    }
                }
            }
        }
    }

    /// Cancels the timers of `sink` with id `id`.
    pub fn cancel_timer(&mut self, sink: u64, id: i32)
        requires
            old(self).wf(),
        ensures
            final(self).wf(),
            final(self).timers() == old(self).timers().filter(not_timer_of(sink, id)),
            final(self).spec_load() == old(self).spec_load(),
    {
        let ghost s = self.timers@;
        let ghost keep = not_timer_of(sink, id);
        let mut kept: Vec<(u64, TimerInfo)> = Vec::new();
        let mut i: usize = 0;
        while i < self.timers.len()
            invariant
                i <= s.len(),
                self.timers@ == s,
                sorted(s),
                keep == not_timer_of(sink, id),
                kept@ == s.take(i as int).filter(keep),
                sorted(kept@),
                forall|j: int| 0 <= j < kept@.len() ==> #[trigger] kept@[j].0 < (if i < s.len() { s[i as int].0 as int } else { u64::MAX as int + 1 }),
            decreases s.len() - i,
        {
            let t = self.timers[i];
            proof {
                assert(s.take(i + 1).drop_last() =~= s.take(i as int));
                s.take(i as int).lemma_filter_push(t, keep);
                assert(s.take(i + 1) =~= s.take(i as int).push(t));
                assert(keep(t) == !(t.1.sink == sink && t.1.id == id));
            }
            if !(t.1.sink == sink && t.1.id == id) {
                kept.push(t);
            }
            i += 1;
        }
        proof {
            assert(s.take(s.len() as int) =~= s);
        }
        self.timers = kept;
    }

    /// Takes out the timers that have expired at `now` and says how long
    /// until the next one (0 if none is left). The expired timers are handed
    /// back to fire, earliest first, only where no timer is left; where one
    /// is still to come they are dropped unfired.
    pub fn execute_timers_at(&mut self, now: u64) -> (r: (u64, Vec<TimerInfo>))
        requires
            old(self).wf(),
        ensures
            final(self).wf(),
            ({
                let s = old(self).timers();
                let n = expired_count(s, now);
                &&& r.1@ == (if n < s.len() {
                    Seq::<TimerInfo>::empty()
                } else {
                    s.take(n).map_values(|t: (u64, TimerInfo)| t.1)
                })
                &&& final(self).timers() == s.skip(n)
                &&& r.0 == if n < s.len() {
                    (s[n].0 - now) as u64
                } else {
                    0u64
                }
            }),
            final(self).spec_load() == old(self).spec_load(),
    {
        let ghost s = self.timers@;
        proof {
            law_expired_are_the_due_ones(s, now);
        }
        let mut n: usize = 0;
        while n < self.timers.len() && self.timers[n].0 <= now
            invariant
                n <= s.len(),
                self.timers@ == s,
                sorted(s),
                forall|j: int| 0 <= j < n ==> #[trigger] s[j].0 <= now,
                n <= expired_count(s, now),
                0 <= expired_count(s, now) <= s.len(),
                forall|i: int| expired_count(s, now) <= i < s.len() ==> #[trigger] s[i].0 > now,
            decreases s.len() - n,
        {
            n += 1;
        }
        let mut expired: Vec<TimerInfo> = Vec::new();
        let mut j: usize = 0;
        while j < n
            invariant
                j <= n <= s.len(),
                self.timers@ == s,
                expired@ == s.take(j as int).map_values(|t: (u64, TimerInfo)| t.1),
            decreases n - j,
        {
            expired.push(self.timers[j].1);
            j += 1;
            proof {
                assert(s.take(j as int).map_values(|t: (u64, TimerInfo)| t.1) =~= s.take(j - 1).map_values(|t: (u64, TimerInfo)| t.1).push(s[j - 1].1));
            }
        }
        let rest = self.timers.split_off(n);
        self.timers = rest;
        if self.timers.len() > 0 {
            expired = Vec::new();
        }
        proof {
            assert(self.timers@ =~= s.skip(n as int));
            assert forall|a: int, b: int| 0 <= a < b < self.timers@.len() implies #[trigger] self.timers@[a].0 < #[trigger] self.timers@[b].0 by {
                assert(s[a + n].0 < s[b + n].0);
            }
        }
        let next = if self.timers.len() > 0 {
            self.timers[0].0 - now
        } else {
            0
        };
        (next, expired)
    }

    /// `execute_timers_at` at the time the clock gives.
    pub fn execute_timers(&mut self) -> (r: (u64, Vec<TimerInfo>))
        requires
            old(self).wf(),
        ensures
            final(self).wf(),
            exists|now: u64|
                #[trigger] executed_at(old(self).timers(), now, r.1@, final(self).timers())
                    && r.0 == next_wait(final(self).timers(), now),
            final(self).spec_load() == old(self).spec_load(),
    {
        if self.timers.len() == 0 {
            let r = (0u64, Vec::new());
            proof {
                let s = old(self).timers();
                assert(expired_count(s, 0) == 0);
                assert(r.1@ =~= s.take(0).map_values(|t: (u64, TimerInfo)| t.1));
                assert(self.timers() =~= s.skip(0));
                assert(executed_at(s, 0, r.1@, self.timers()));
            }
            return r;
        }
        let now = self.clock.now_ms();
        let r = self.execute_timers_at(now);
        proof {
            law_expired_are_the_due_ones(old(self).timers(), now);
        }
        assert(r.0 == next_wait(self.timers(), now));
        assert(executed_at(old(self).timers(), now, r.1@, self.timers()));
        r
    }
}

/// The context a worker thread is started with.
pub struct ThreadCtx {}

} // verus!
