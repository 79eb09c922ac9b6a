use vstd::prelude::*;

verus! {

/// The descriptor number a retired entry carries.
pub const RETIRED_FD: i32 = -1;

/// There is data to read.
pub const POLLIN: i16 = 1;

/// Writing will not block.
pub const POLLOUT: i16 = 4;

/// An error condition.
pub const POLLERR: i16 = 8;

/// The peer hung up.
pub const POLLHUP: i16 = 16;

/// What a descriptor's handler is told.
pub trait PollEvents {
    fn in_event(&self);

    fn out_event(&self);
}

/// One entry of the poll set: a descriptor, the events asked for, and the
/// events that happened.
#[derive(Clone, Copy)]
pub struct PollFd {
    pub fd: i32,
    pub events: i16,
    pub revents: i16,
}

/// Which handler call an event makes.
#[derive(Clone, Copy, PartialEq, Eq, Debug, Structural)]
pub enum PollEvent {
    In,
    Out,
}

struct FdEntry<H> {
    index: i32,
    events: Option<H>,
}

/// How many entries of `ps` are in use.
pub open spec fn count_live(ps: Seq<PollFd>) -> nat
    decreases ps.len(),
{
    if ps.len() == 0 {
        0
    } else {
        count_live(ps.drop_last()) + if ps.last().fd != RETIRED_FD {
            1nat
        } else {
            0nat
        }
    }
}

/// The handler calls one entry of the poll set makes: `In` on an error or
/// hang-up, `Out` when writable, `In` when readable; none for a retired
/// entry.
pub open spec fn entry_events(p: PollFd) -> Seq<(i32, PollEvent)> {
    if p.fd == RETIRED_FD {
        Seq::empty()
    } else {
        (if p.revents & (POLLERR | POLLHUP) != 0 {
            seq![(p.fd, PollEvent::In)]
        } else {
            Seq::empty()
        }) + (if p.revents & POLLOUT != 0 {
            seq![(p.fd, PollEvent::Out)]
        } else {
            Seq::empty()
        }) + (if p.revents & POLLIN != 0 {
            seq![(p.fd, PollEvent::In)]
        } else {
            Seq::empty()
        })
    }
}

/// The handler calls the poll set makes, entry by entry.
pub open spec fn dispatch_events(ps: Seq<PollFd>) -> Seq<(i32, PollEvent)>
    decreases ps.len(),
{
    if ps.len() == 0 {
        Seq::empty()
    } else {
        dispatch_events(ps.drop_last()) + entry_events(ps.last())
    }
}

proof fn lemma_count_update(ps: Seq<PollFd>, i: int, p: PollFd)
    requires
        0 <= i < ps.len(),
        ps[i].fd != RETIRED_FD,
        p.fd == RETIRED_FD,
    ensures
        count_live(ps.update(i, p)) + 1 == count_live(ps),
    decreases ps.len(),
{
    let u = ps.update(i, p);
    if i == ps.len() - 1 {
        assert(u.drop_last() =~= ps.drop_last());
    } else {
        assert(u.drop_last() =~= ps.drop_last().update(i, p));
        lemma_count_update(ps.drop_last(), i, p);
    }
}

proof fn lemma_count_same_liveness(ps: Seq<PollFd>, qs: Seq<PollFd>)
    requires
        ps.len() == qs.len(),
        forall|i: int| 0 <= i < ps.len() ==> (ps[i].fd == RETIRED_FD <==> qs[i].fd == RETIRED_FD),
    ensures
        count_live(ps) == count_live(qs),
    decreases ps.len(),
{
    if ps.len() > 0 {
        lemma_count_same_liveness(ps.drop_last(), qs.drop_last());
    }
}

proof fn lemma_count_all_live(ps: Seq<PollFd>)
    requires
        forall|i: int| 0 <= i < ps.len() ==> ps[i].fd != RETIRED_FD,
    ensures
        count_live(ps) == ps.len(),
    decreases ps.len(),
{
    if ps.len() > 0 {
        lemma_count_all_live(ps.drop_last());
    }
}

proof fn lemma_count_bound(ps: Seq<PollFd>)
    ensures
        count_live(ps) <= ps.len(),
    decreases ps.len(),
{
    if ps.len() > 0 {
        lemma_count_bound(ps.drop_last());
    }
}

/// The `poll` system call's bookkeeping: a table from descriptor to its
/// place in the poll set and its handler, the poll set itself, and the
/// number of descriptors in use.  Removed entries are only marked retired
/// and cleared out before the next wait.
pub struct Poll<H> {
    fd_table: Vec<FdEntry<H>>,
    pollset: Vec<PollFd>,
    retired: bool,
    load: i32,
}

impl<H> Poll<H> {
    pub closed spec fn table_len(&self) -> nat {
        self.fd_table@.len()
    }

    pub closed spec fn index_of(&self, fd: int) -> i32 {
        self.fd_table@[fd].index
    }

    /// The poll set.
    pub closed spec fn entries(&self) -> Seq<PollFd> {
        self.pollset@
    }

    /// Whether `fd` is watched.
    pub closed spec fn registered(&self, fd: int) -> bool {
        0 <= fd < self.table_len() && self.index_of(fd) != RETIRED_FD
    }

    /// The events asked for on a watched `fd`.
    pub closed spec fn events_of(&self, fd: int) -> i16 {
        self.entries()[self.index_of(fd) as int].events
    }

    /// The handler of `fd`.
    pub closed spec fn handler_of(&self, fd: int) -> Option<H> {
        if 0 <= fd < self.fd_table@.len() {
            self.fd_table@[fd].events
        } else {
            None
        }
    }

    pub closed spec fn spec_load(&self) -> int {
        self.load as int
    }

    pub closed spec fn spec_retired(&self) -> bool {
        self.retired
    }

    pub closed spec fn wf(&self) -> bool {
        let table = self.fd_table@;
        let ps = self.pollset@;
        &&& table.len() <= i32::MAX
        &&& ps.len() <= i32::MAX
        &&& forall|f: int|
            0 <= f < table.len() ==> (#[trigger] table[f]).index == RETIRED_FD || (0
                <= table[f].index < ps.len() && ps[table[f].index as int].fd == f)
        &&& forall|i: int|
            0 <= i < ps.len() ==> (#[trigger] ps[i]).fd == RETIRED_FD || (0 <= ps[i].fd
                < table.len() && table[ps[i].fd as int].index == i)
        &&& !self.retired ==> forall|i: int| 0 <= i < ps.len() ==> (#[trigger] ps[i]).fd != RETIRED_FD
        &&& self.load == count_live(ps)
    }

    /// Whether every descriptor is as it was.
    pub open spec fn same_fds(&self, old_poll: &Self) -> bool {
        forall|f: int|
            (#[trigger] self.registered(f) == old_poll.registered(f)) && (self.registered(f)
                ==> self.events_of(f) == old_poll.events_of(f)) && self.handler_of(f)
                == old_poll.handler_of(f)
    }

    /// Whether the other descriptors are as they were.
    pub open spec fn others_unchanged(&self, old_poll: &Self, fd: int) -> bool {
        forall|f: int|
            f != fd ==> (#[trigger] self.registered(f) == old_poll.registered(f)) && (
            self.registered(f) ==> self.events_of(f) == old_poll.events_of(f)) && self.handler_of(f)
                == old_poll.handler_of(f)
    }

    pub fn new() -> (p: Self)
        ensures
            p.wf(),
            forall|f: int| !#[trigger] p.registered(f),
            p.spec_load() == 0,
    {
        Poll { fd_table: Vec::new(), pollset: Vec::new(), retired: false, load: 0 }
    }

    /// Starts watching `fd` for no events yet, with `events` as its handler.
    pub fn add_fd(&mut self, fd: i32, events: H) -> (r: i32)
        requires
            old(self).wf(),
            0 <= fd < i32::MAX,
            !old(self).registered(fd as int),
            old(self).entries().len() < i32::MAX,
        ensures
            final(self).wf(),
            r == fd,
            final(self).registered(fd as int),
            final(self).events_of(fd as int) == 0,
            final(self).handler_of(fd as int) == Some(events),
            final(self).others_unchanged(old(self), fd as int),
            final(self).spec_load() == old(self).spec_load() + 1,
            final(self).spec_retired() == old(self).spec_retired(),
    {
        let ghost old_table = self.fd_table@;
        proof {
            lemma_count_bound(self.pollset@);
        }
        let f = fd as usize;
        if self.fd_table.len() <= f {
            while self.fd_table.len() <= f
                invariant
                    old_table.len() <= self.fd_table@.len() <= f + 1,
                    forall|g: int| 0 <= g < old_table.len() ==> #[trigger] self.fd_table@[g] == old_table[g],
                    forall|g: int|
                        old_table.len() <= g < self.fd_table@.len() ==> (#[trigger] self.fd_table@[g]).index
                            == RETIRED_FD && self.fd_table@[g].events is None,
                    self.pollset@ == old(self).pollset@,
                    self.retired == old(self).retired,
                    self.load == old(self).load,
                decreases f + 1 - self.fd_table@.len(),
            {
                self.fd_table.push(FdEntry { index: RETIRED_FD, events: None });
            }
        }
        let ghost mid_table = self.fd_table@;
        let pfd = PollFd { fd, events: 0, revents: 0 };
        self.pollset.push(pfd);
        let index = (self.pollset.len() - 1) as i32;
        self.fd_table.set(f, FdEntry { index, events: Some(events) });
        self.load = self.load + 1;
        proof {
            let ps = self.pollset@;
            assert(ps.drop_last() =~= old(self).pollset@);
            let table = self.fd_table@;
            assert forall|g: int|
                0 <= g < table.len() implies (#[trigger] table[g]).index == RETIRED_FD || (0
                <= table[g].index < ps.len() && ps[table[g].index as int].fd == g) by {
                if g != fd {
                    assert(table[g] == mid_table[g]);
                    if g < old_table.len() {
                        assert(old_table[g] == old(self).fd_table@[g]);
                    }
                }
            }
            assert forall|i: int|
                0 <= i < ps.len() implies (#[trigger] ps[i]).fd == RETIRED_FD || (0 <= ps[i].fd
                < table.len() && table[ps[i].fd as int].index == i) by {
                if i < ps.len() - 1 {
                    assert(ps[i] == old(self).pollset@[i]);
                    if ps[i].fd != RETIRED_FD {
                        assert(ps[i].fd != fd);
                    }
                }
            }
            assert forall|g: int| g != fd implies (#[trigger] self.registered(g) == old(self).registered(g))
                && (self.registered(g) ==> self.events_of(g) == old(self).events_of(g))
                && self.handler_of(g) == old(self).handler_of(g) by {
                if 0 <= g < table.len() {
                    assert(table[g] == mid_table[g]);
                }
                if self.registered(g) {
                    assert(table[g] == old(self).fd_table@[g]);
                }
            }
        }
        fd
    }

    /// Stops watching `handle`; its entry is marked retired.
    pub fn rm_fd(&mut self, handle: i32)
        requires
            old(self).wf(),
            old(self).registered(handle as int),
        ensures
            final(self).wf(),
            !final(self).registered(handle as int),
            final(self).handler_of(handle as int) == old(self).handler_of(handle as int),
            final(self).others_unchanged(old(self), handle as int),
            final(self).spec_load() == old(self).spec_load() - 1,
            final(self).spec_retired(),
    {
        let h = handle as usize;
        let index = self.fd_table[h].index;
        let i = index as usize;
        let old_entry = self.pollset[i];
        self.pollset.set(i, PollFd { fd: RETIRED_FD, events: old_entry.events, revents: old_entry.revents });
        self.set_index(h, RETIRED_FD);
        self.retired = true;
        proof {
            lemma_count_update(old(self).pollset@, i as int, self.pollset@[i as int]);
            assert(self.pollset@ == old(self).pollset@.update(i as int, self.pollset@[i as int]));
        }
        self.load = self.load - 1;
        proof {
            let ps = self.pollset@;
            let table = self.fd_table@;
            assert forall|g: int|
                0 <= g < table.len() implies (#[trigger] table[g]).index == RETIRED_FD || (0
                <= table[g].index < ps.len() && ps[table[g].index as int].fd == g) by {
                if g != handle {
                    assert(table[g] == old(self).fd_table@[g]);
                    let k = table[g].index;
                    if k != RETIRED_FD {
                        assert(old(self).pollset@[k as int].fd == g);
                    }
                }
            }
            assert forall|j: int|
                0 <= j < ps.len() implies (#[trigger] ps[j]).fd == RETIRED_FD || (0 <= ps[j].fd
                < table.len() && table[ps[j].fd as int].index == j) by {
                if j != i {
                    assert(ps[j] == old(self).pollset@[j]);
                    if ps[j].fd != RETIRED_FD {
                        assert(ps[j].fd != handle);
                    }
                }
            }
            assert forall|g: int| g != handle implies (#[trigger] self.registered(g) == old(self).registered(g))
                && (self.registered(g) ==> self.events_of(g) == old(self).events_of(g))
                && self.handler_of(g) == old(self).handler_of(g) by {
                if 0 <= g < table.len() {
                    assert(table[g] == old(self).fd_table@[g]);
                }
            }
        }
    }

    /// Puts `entry` in the table at `h` and returns what was there.
    fn replace_entry(&mut self, h: usize, entry: FdEntry<H>) -> (taken: FdEntry<H>)
        requires
            h < old(self).fd_table@.len(),
        ensures
            taken == old(self).fd_table@[h as int],
            final(self).fd_table@ == old(self).fd_table@.update(h as int, entry),
            final(self).pollset@ == old(self).pollset@,
            final(self).retired == old(self).retired,
            final(self).load == old(self).load,
    {
        let taken = self.fd_table.remove(h);
        self.fd_table.insert(h, entry);
        assert(self.fd_table@ =~= old(self).fd_table@.update(h as int, entry));
        taken
    }

    /// Points the table entry of `h` at `index`, keeping its handler.
    fn set_index(&mut self, h: usize, index: i32)
        requires
            h < old(self).fd_table@.len(),
        ensures
            final(self).fd_table@ == old(self).fd_table@.update(
                h as int,
                FdEntry { index, events: old(self).fd_table@[h as int].events },
            ),
            final(self).pollset@ == old(self).pollset@,
            final(self).retired == old(self).retired,
            final(self).load == old(self).load,
    {
        let taken = self.replace_entry(h, FdEntry { index, events: None });
        let FdEntry { index: _, events } = taken;
        let _ = self.replace_entry(h, FdEntry { index, events });
        assert(self.fd_table@ =~= old(self).fd_table@.update(
            h as int,
            FdEntry { index, events: old(self).fd_table@[h as int].events },
        ));
    }

    fn update_events(&mut self, handle: i32, set: i16, clear: i16)
        requires
            old(self).wf(),
            old(self).registered(handle as int),
        ensures
            final(self).wf(),
            final(self).registered(handle as int),
            final(self).events_of(handle as int) == (old(self).events_of(handle as int) | set) & !clear,
            final(self).handler_of(handle as int) == old(self).handler_of(handle as int),
            final(self).others_unchanged(old(self), handle as int),
            final(self).spec_load() == old(self).spec_load(),
            final(self).spec_retired() == old(self).spec_retired(),
    {
        let index = self.fd_table[handle as usize].index as usize;
        let e = self.pollset[index];
        self.pollset.set(index, PollFd { fd: e.fd, events: (e.events | set) & !clear, revents: e.revents });
        proof {
            let ps = self.pollset@;
            let table = self.fd_table@;
            lemma_count_same_liveness(ps, old(self).pollset@);
            assert forall|g: int|
                0 <= g < table.len() implies (#[trigger] table[g]).index == RETIRED_FD || (0
                <= table[g].index < ps.len() && ps[table[g].index as int].fd == g) by {
                if table[g].index != RETIRED_FD {
                    assert(old(self).pollset@[table[g].index as int].fd == g);
                }
            }
            assert forall|j: int|
                0 <= j < ps.len() implies (#[trigger] ps[j]).fd == RETIRED_FD || (0 <= ps[j].fd
                < table.len() && table[ps[j].fd as int].index == j) by {
                assert(ps[j].fd == old(self).pollset@[j].fd);
            }
            assert forall|g: int| g != handle implies (#[trigger] self.registered(g) == old(self).registered(g))
                && (self.registered(g) ==> self.events_of(g) == old(self).events_of(g))
                && self.handler_of(g) == old(self).handler_of(g) by {
                if self.registered(g) {
                    assert(self.index_of(g) != index as i32);
                }
            }
        }
    }

    pub fn set_pollin(&mut self, handle: i32)
        requires
            old(self).wf(),
            old(self).registered(handle as int),
        ensures
            final(self).wf(),
            final(self).registered(handle as int),
            final(self).events_of(handle as int) == old(self).events_of(handle as int) | POLLIN,
            final(self).handler_of(handle as int) == old(self).handler_of(handle as int),
            final(self).others_unchanged(old(self), handle as int),
            final(self).spec_load() == old(self).spec_load(),
    {
        self.update_events(handle, POLLIN, 0);
        let ghost e = old(self).events_of(handle as int);
        assert((e | POLLIN) & !0i16 == e | POLLIN) by (bit_vector);
    }

    pub fn reset_pollin(&mut self, handle: i32)
        requires
            old(self).wf(),
            old(self).registered(handle as int),
        ensures
            final(self).wf(),
            final(self).registered(handle as int),
            final(self).events_of(handle as int) == old(self).events_of(handle as int) & !POLLIN,
            final(self).handler_of(handle as int) == old(self).handler_of(handle as int),
            final(self).others_unchanged(old(self), handle as int),
            final(self).spec_load() == old(self).spec_load(),
    {
        self.update_events(handle, 0, POLLIN);
        let ghost e = old(self).events_of(handle as int);
        assert((e | 0i16) & !POLLIN == e & !POLLIN) by (bit_vector);
    }

    pub fn set_pollout(&mut self, handle: i32)
        requires
            old(self).wf(),
            old(self).registered(handle as int),
        ensures
            final(self).wf(),
            final(self).registered(handle as int),
            final(self).events_of(handle as int) == old(self).events_of(handle as int) | POLLOUT,
            final(self).handler_of(handle as int) == old(self).handler_of(handle as int),
            final(self).others_unchanged(old(self), handle as int),
            final(self).spec_load() == old(self).spec_load(),
    {
        self.update_events(handle, POLLOUT, 0);
        let ghost e = old(self).events_of(handle as int);
        assert((e | POLLOUT) & !0i16 == e | POLLOUT) by (bit_vector);
    }

    pub fn reset_pollout(&mut self, handle: i32)
        requires
            old(self).wf(),
            old(self).registered(handle as int),
        ensures
            final(self).wf(),
            final(self).registered(handle as int),
            final(self).events_of(handle as int) == old(self).events_of(handle as int) & !POLLOUT,
            final(self).handler_of(handle as int) == old(self).handler_of(handle as int),
            final(self).others_unchanged(old(self), handle as int),
            final(self).spec_load() == old(self).spec_load(),
    {
        self.update_events(handle, 0, POLLOUT);
        let ghost e = old(self).events_of(handle as int);
        assert((e | 0i16) & !POLLOUT == e & !POLLOUT) by (bit_vector);
    }

    /// The poller puts no limit on the number of descriptors.
    pub fn max_fds() -> (r: i32)
        ensures
            r == -1,
    {
        -1
    }

    /// Clears retired entries out of the poll set, keeping the others in
    /// order, and points the table at their new places.
    fn cleanup_retired(&mut self)
        requires
            old(self).wf(),
        ensures
            final(self).wf(),
            !final(self).spec_retired(),
            final(self).same_fds(old(self)),
            final(self).spec_load() == old(self).spec_load(),
            final(self).entries().len() == old(self).spec_load(),
    {
        if !self.retired {
            proof {
                lemma_count_all_live(self.pollset@);
            }
            return;
        }
        let ghost orig = self.pollset@;
        let ghost orig_table = self.fd_table@;
        let mut kept: Vec<PollFd> = Vec::new();
        let mut k: usize = 0;
        proof {
            lemma_count_bound(orig);
        }
        while k < self.pollset.len()
            invariant
                self.pollset@ == orig,
                self.load == old(self).load,
                self.load == count_live(orig),
                k <= orig.len(),
                orig.len() <= i32::MAX,
                kept@.len() == count_live(orig.take(k as int)),
                kept@.len() <= k,
                self.fd_table@.len() == orig_table.len(),
                orig_table.len() <= i32::MAX,
                forall|j: int| 0 <= j < kept@.len() ==> (#[trigger] kept@[j]).fd != RETIRED_FD,
                forall|j: int|
                    0 <= j < kept@.len() ==> 0 <= (#[trigger] kept@[j]).fd < orig_table.len()
                        && self.fd_table@[kept@[j].fd as int].index == j,
                forall|f: int|
                    0 <= f < orig_table.len() ==> (#[trigger] self.fd_table@[f]).events
                        == orig_table[f].events,
                forall|f: int|
                    0 <= f < orig_table.len() ==> ((#[trigger] self.fd_table@[f]).index
                        == RETIRED_FD <==> orig_table[f].index == RETIRED_FD),
                forall|f: int|
                    0 <= f < orig_table.len() && orig_table[f].index != RETIRED_FD ==> ((k
                        <= orig_table[f].index && (#[trigger] self.fd_table@[f]).index
                        == orig_table[f].index) || (orig_table[f].index < k && 0
                        <= self.fd_table@[f].index < kept@.len() && kept@[self.fd_table@[f].index as int].fd
                        == f && kept@[self.fd_table@[f].index as int].events
                        == orig[orig_table[f].index as int].events)),
                forall|f: int|
                    0 <= f < orig_table.len() ==> (#[trigger] orig_table[f]).index == RETIRED_FD || (
                    0 <= orig_table[f].index < orig.len() && orig[orig_table[f].index as int].fd
                        == f),
                forall|i: int|
                    0 <= i < orig.len() ==> (#[trigger] orig[i]).fd == RETIRED_FD || (0 <= orig[i].fd
                        < orig_table.len() && orig_table[orig[i].fd as int].index == i),
            decreases orig.len() - k,
        {
            let e = self.pollset[k];
            proof {
                assert(orig.take(k + 1).drop_last() =~= orig.take(k as int));
            }
            if e.fd != RETIRED_FD {
                let new_index = kept.len() as i32;
                let f = e.fd as usize;
                self.set_index(f, new_index);
                kept.push(e);
                proof {
                    assert forall|j: int|
                        0 <= j < kept@.len() implies 0 <= (#[trigger] kept@[j]).fd < orig_table.len()
                        && self.fd_table@[kept@[j].fd as int].index == j by {
                        if j < kept@.len() - 1 {
                            assert(kept@[j].fd != e.fd) by {
                                let g = kept@[j].fd as int;
                                assert(self.fd_table@[g].index != RETIRED_FD);
                            }
                        }
                    }
                }
            }
            k += 1;
        }
        proof {
            assert(orig.take(orig.len() as int) =~= orig);
        }
        self.pollset = kept;
        self.retired = false;
        proof {
            let ps = self.pollset@;
            let table = self.fd_table@;
            lemma_count_all_live(ps);
            assert forall|f: int|
                0 <= f < table.len() implies (#[trigger] table[f]).index == RETIRED_FD || (0
                <= table[f].index < ps.len() && ps[table[f].index as int].fd == f) by {
                if orig_table[f].index != RETIRED_FD {
                    assert(orig_table[f] == orig_table[f]);
                }
            }
            assert forall|f: int|
                (#[trigger] self.registered(f) == old(self).registered(f)) && (self.registered(f)
                    ==> self.events_of(f) == old(self).events_of(f)) && self.handler_of(f)
                    == old(self).handler_of(f) by {
                if 0 <= f < table.len() {
                    assert(table[f].events == orig_table[f].events);
                    if orig_table[f].index != RETIRED_FD {
                        assert(orig_table[f] == orig_table[f]);
                    }
                }
            }
        }
    }

    /// Gets ready to wait: clears out retired entries.  Returns whether any
    /// descriptor is left to wait on.
    pub fn prepare(&mut self) -> (r: bool)
        requires
            old(self).wf(),
        ensures
            final(self).wf(),
            !final(self).spec_retired(),
            final(self).same_fds(old(self)),
            final(self).spec_load() == old(self).spec_load(),
            r == (old(self).spec_load() > 0),
            forall|i: int|
                0 <= i < final(self).entries().len() ==> (#[trigger] final(self).entries()[i]).fd
                    != RETIRED_FD,
    {
        self.cleanup_retired();
        if self.pollset.len() == 0 {
            return false;
        }
        true
    }

    /// The poll set, for the system call.
    pub fn pollset(&self) -> (ps: &[PollFd])
        ensures
            ps@ == self.entries(),
    {
        self.pollset.as_slice()
    }

    /// Records the events the system call reported, entry by entry.
    pub fn set_revents(&mut self, revents: &[i16])
        requires
            old(self).wf(),
            revents@.len() == old(self).entries().len(),
        ensures
            final(self).wf(),
            final(self).entries().len() == old(self).entries().len(),
            forall|i: int|
                0 <= i < final(self).entries().len() ==> (#[trigger] final(self).entries()[i]).revents
                    == revents@[i] && final(self).entries()[i].fd == old(self).entries()[i].fd
                    && final(self).entries()[i].events == old(self).entries()[i].events,
            final(self).same_fds(old(self)),
            final(self).spec_load() == old(self).spec_load(),
            final(self).spec_retired() == old(self).spec_retired(),
    {
        let mut i: usize = 0;
        while i < self.pollset.len()
            invariant
                i <= self.pollset@.len(),
                self.pollset@.len() == old(self).pollset@.len(),
                revents@.len() == self.pollset@.len(),
                forall|j: int|
                    0 <= j < self.pollset@.len() ==> (#[trigger] self.pollset@[j]).fd == old(self).pollset@[j].fd && self.pollset@[j].events == old(self).pollset@[j].events,
                forall|j: int| 0 <= j < i ==> (#[trigger] self.pollset@[j]).revents == revents@[j],
                self.fd_table@ == old(self).fd_table@,
                self.retired == old(self).retired,
                self.load == old(self).load,
            decreases self.pollset@.len() - i,
        {
            let e = self.pollset[i];
            self.pollset.set(i, PollFd { fd: e.fd, events: e.events, revents: revents[i] });
            i += 1;
        }
        proof {
            lemma_count_same_liveness(self.pollset@, old(self).pollset@);
        }
    }

    /// The handler calls the recorded events ask for, in poll-set order.
    pub fn dispatch(&self) -> (calls: Vec<(i32, PollEvent)>)
        ensures
            calls@ == dispatch_events(self.entries()),
    {
        let mut calls: Vec<(i32, PollEvent)> = Vec::new();
        let mut i: usize = 0;
        while i < self.pollset.len()
            invariant
                i <= self.pollset@.len(),
                calls@ == dispatch_events(self.pollset@.take(i as int)),
            decreases self.pollset@.len() - i,
        {
            let p = self.pollset[i];
            let ghost before = calls@;
            if p.fd != RETIRED_FD {
                if p.revents & (POLLERR | POLLHUP) != 0 {
                    calls.push((p.fd, PollEvent::In));
                }
                if p.revents & POLLOUT != 0 {
                    calls.push((p.fd, PollEvent::Out));
                }
                if p.revents & POLLIN != 0 {
                    calls.push((p.fd, PollEvent::In));
                }
            }
            proof {
                assert(self.pollset@.take(i + 1).drop_last() =~= self.pollset@.take(i as int));
                assert(calls@ =~= before + entry_events(p));
            }
            i += 1;
        }
        proof {
            assert(self.pollset@.take(self.pollset@.len() as int) =~= self.pollset@);
        }
        calls
    }

    /// The handler of `fd`.
    pub fn handler(&self, fd: i32) -> (h: Option<&H>)
        ensures
            match h {
                Some(x) => self.handler_of(fd as int) == Some(*x),
                None => self.handler_of(fd as int) is None,
            },
    {
        if fd < 0 || fd as usize >= self.fd_table.len() {
            return None;
        }
        match &self.fd_table[fd as usize].events {
            Some(x) => Some(x),
            None => None,
        }
    }

    pub fn load(&self) -> (n: i32)
        ensures
            n == self.spec_load(),
    {
        self.load
    }
}

} // verus!
