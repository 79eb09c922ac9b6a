use vstd::prelude::*;

verus! {

/// The number of descriptors an `fd_set` can hold.
pub const FD_SETSIZE: usize = 1024;

/// The descriptor number that stands for none.
pub const RETIRED_FD: i32 = -1;

/// What a descriptor's handler is told.
pub trait PollEvents {
    fn in_event(&mut self);

    fn out_event(&mut self);
}

/// The largest of `fds`, or `RETIRED_FD` when there are none.
pub open spec fn max_of(fds: Seq<i32>) -> i32
    decreases fds.len(),
{
    if fds.len() == 0 {
        RETIRED_FD
    } else {
        let m = max_of(fds.drop_last());
        if fds.last() > m {
            fds.last()
        } else {
            m
        }
    }
}

proof fn lemma_max_bounds(fds: Seq<i32>)
    requires
        forall|i: int| 0 <= i < fds.len() ==> #[trigger] fds[i] >= 0,
    ensures
        forall|i: int| 0 <= i < fds.len() ==> #[trigger] fds[i] <= max_of(fds),
        fds.len() == 0 <==> max_of(fds) == RETIRED_FD,
        fds.len() > 0 ==> exists|i: int| 0 <= i < fds.len() && fds[i] == max_of(fds),
    decreases fds.len(),
{
    if fds.len() > 0 {
        let d = fds.drop_last();
        lemma_max_bounds(d);
        assert forall|i: int| 0 <= i < fds.len() implies #[trigger] fds[i] <= max_of(fds) by {
            if i < fds.len() - 1 {
                assert(fds[i] == d[i]);
            }
        }
        if fds.last() > max_of(d) {
            assert(fds[fds.len() - 1] == max_of(fds));
        } else {
            let j = choose|j: int| 0 <= j < d.len() && d[j] == max_of(d);
            assert(fds[j] == max_of(fds));
        }
    }
}

proof fn lemma_max_remove(fds: Seq<i32>, i: int)
    requires
        0 <= i < fds.len(),
        forall|j: int| 0 <= j < fds.len() ==> #[trigger] fds[j] >= 0,
        fds[i] != max_of(fds),
    ensures
        max_of(fds.remove(i)) == max_of(fds),
    decreases fds.len(),
{
    let d = fds.drop_last();
    let r = fds.remove(i);
    lemma_max_bounds(fds);
    lemma_max_bounds(d);
    if i == fds.len() - 1 {
        assert(r =~= d);
    } else {
        assert(r.drop_last() =~= d.remove(i));
        assert(r.last() == fds.last());
        assert(d[i] == fds[i]);
        if fds[i] != max_of(d) {
            lemma_max_remove(d, i);
        } else {
            lemma_max_bounds(d.remove(i));
            assert forall|j: int| 0 <= j < d.remove(i).len() implies #[trigger] d.remove(i)[j]
                <= max_of(d) by {
                if j < i {
                    assert(d.remove(i)[j] == d[j]);
                } else {
                    assert(d.remove(i)[j] == d[j + 1]);
                }
            }
            if d.remove(i).len() > 0 {
                let k = choose|k: int| 0 <= k < d.remove(i).len() && d.remove(i)[k] == max_of(d.remove(i));
                assert(max_of(d.remove(i)) <= max_of(d));
            }
        }
    }
}

/// `select`'s bookkeeping: the watched descriptors with their handlers, the
/// read, write and error sets, and the largest descriptor watched.
pub struct Select<H> {
    fd_entries: Vec<(i32, H)>,
    read: Vec<bool>,
    write: Vec<bool>,
    error: Vec<bool>,
    max_fd: i32,
}

impl<H> Select<H> {
    /// The watched descriptors, in the order they were added.
    pub closed spec fn fds(&self) -> Seq<i32> {
        self.fd_entries@.map_values(|e: (i32, H)| e.0)
    }

    pub closed spec fn read_set(&self) -> Seq<bool> {
        self.read@
    }

    pub closed spec fn write_set(&self) -> Seq<bool> {
        self.write@
    }

    pub closed spec fn error_set(&self) -> Seq<bool> {
        self.error@
    }

    pub closed spec fn spec_max_fd(&self) -> i32 {
        self.max_fd
    }

    pub closed spec fn wf(&self) -> bool {
        &&& self.read@.len() == FD_SETSIZE
        &&& self.write@.len() == FD_SETSIZE
        &&& self.error@.len() == FD_SETSIZE
        &&& forall|i: int| 0 <= i < self.fds().len() ==> 0 <= #[trigger] self.fds()[i] < FD_SETSIZE
        &&& self.max_fd == max_of(self.fds())
    }

    fn empty_set() -> (v: Vec<bool>)
        ensures
            v@ == Seq::new(FD_SETSIZE as nat, |i: int| false),
    {
        let mut v: Vec<bool> = Vec::new();
        while v.len() < FD_SETSIZE
            invariant
                v@.len() <= FD_SETSIZE,
                forall|i: int| 0 <= i < v@.len() ==> !#[trigger] v@[i],
            decreases FD_SETSIZE - v@.len(),
        {
            v.push(false);
        }
        assert(v@ =~= Seq::new(FD_SETSIZE as nat, |i: int| false));
        v
    }

    pub fn new() -> (s: Self)
        ensures
            s.wf(),
            s.fds() == Seq::<i32>::empty(),
            s.spec_max_fd() == RETIRED_FD,
            s.read_set() == Seq::new(FD_SETSIZE as nat, |i: int| false),
            s.write_set() == Seq::new(FD_SETSIZE as nat, |i: int| false),
            s.error_set() == Seq::new(FD_SETSIZE as nat, |i: int| false),
    {
        let s = Select {
            fd_entries: Vec::new(),
            read: Self::empty_set(),
            write: Self::empty_set(),
            error: Self::empty_set(),
            max_fd: RETIRED_FD,
        };
        assert(s.fds() =~= Seq::<i32>::empty());
        s
    }

    /// The largest descriptor watched, or `RETIRED_FD`.
    pub fn max_fd(&self) -> (m: i32)
        ensures
            m == self.spec_max_fd(),
    {
        self.max_fd
    }

    /// Starts watching `fd` for errors, with `events` as its handler.
    pub fn add_fd(&mut self, fd: i32, events: H) -> (r: i32)
        requires
            old(self).wf(),
            0 <= fd < FD_SETSIZE,
        ensures
            final(self).wf(),
            r == fd,
            final(self).fds() == old(self).fds().push(fd),
            final(self).error_set() == old(self).error_set().update(fd as int, true),
            final(self).read_set() == old(self).read_set(),
            final(self).write_set() == old(self).write_set(),
            final(self).spec_max_fd() == if fd > old(self).spec_max_fd() {
                fd
            } else {
                old(self).spec_max_fd()
            },
    {
        self.fd_entries.push((fd, events));
        self.error.set(fd as usize, true);
        if fd > self.max_fd {
            self.max_fd = fd;
        }
        proof {
            assert(self.fds() =~= old(self).fds().push(fd));
            assert(self.fds().drop_last() =~= old(self).fds());
        }
        fd
    }

    fn find(&self, handle: i32) -> (r: Option<usize>)
        ensures
            match r {
                Some(i) => i < self.fds().len() && self.fds()[i as int] == handle && forall|j: int|
                    0 <= j < i ==> self.fds()[j] != handle,
                None => forall|j: int| 0 <= j < self.fds().len() ==> self.fds()[j] != handle,
            },
    {
        let mut i: usize = 0;
        while i < self.fd_entries.len()
            invariant
                i <= self.fd_entries@.len(),
                self.fds().len() == self.fd_entries@.len(),
                forall|j: int| 0 <= j < i ==> self.fds()[j] != handle,
            decreases self.fd_entries@.len() - i,
        {
            if self.fd_entries[i].0 == handle {
                return Some(i);
            }
            i += 1;
        }
        None
    }

    fn compute_max(&self) -> (m: i32)
        ensures
            m == max_of(self.fds()),
    {
        let mut m: i32 = RETIRED_FD;
        let mut i: usize = 0;
        while i < self.fd_entries.len()
            invariant
                i <= self.fd_entries@.len(),
                self.fds().len() == self.fd_entries@.len(),
                m == max_of(self.fds().take(i as int)),
            decreases self.fd_entries@.len() - i,
        {
            let fd = self.fd_entries[i].0;
            proof {
                assert(self.fds().take(i + 1).drop_last() =~= self.fds().take(i as int));
            }
            if fd > m {
                m = fd;
            }
            i += 1;
        }
        proof {
            assert(self.fds().take(self.fds().len() as int) =~= self.fds());
        }
        m
    }

    /// Stops watching the first entry for `handle`, if there is one, and
    /// clears it from the three sets.
    pub fn rm_fd(&mut self, handle: i32)
        requires
            old(self).wf(),
        ensures
            final(self).wf(),
            !old(self).fds().contains(handle) ==> final(self).fds() == old(self).fds()
                && final(self).read_set() == old(self).read_set() && final(self).write_set()
                == old(self).write_set() && final(self).error_set() == old(self).error_set(),
            old(self).fds().contains(handle) ==> {
                &&& exists|i: int|
                    0 <= i < old(self).fds().len() && old(self).fds()[i] == handle && (forall|j: int|
                        0 <= j < i ==> old(self).fds()[j] != handle) && final(self).fds() == old(self).fds().remove(i)
                &&& final(self).read_set() == old(self).read_set().update(handle as int, false)
                &&& final(self).write_set() == old(self).write_set().update(handle as int, false)
                &&& final(self).error_set() == old(self).error_set().update(handle as int, false)
            },
    {
        match self.find(handle) {
            Some(pos) => {
                let ghost before = self.fds();
                let _ = self.fd_entries.remove(pos);
                proof {
                    assert(self.fds() =~= before.remove(pos as int));
                    assert(0 <= handle < FD_SETSIZE);
                }
                let h = handle as usize;
                self.read.set(h, false);
                self.write.set(h, false);
                self.error.set(h, false);
                if handle == self.max_fd {
                    self.max_fd = self.compute_max();
                } else {
                    proof {
                        lemma_max_remove(before, pos as int);
                    }
                }
                proof {
                    assert forall|i: int| 0 <= i < self.fds().len() implies 0 <= #[trigger] self.fds()[i] < FD_SETSIZE by {
                        if i < pos {
                            assert(self.fds()[i] == before[i]);
                        } else {
                            assert(self.fds()[i] == before[i + 1]);
                        }
                    }
                }
            },
            None => {
                proof {
                    assert(!old(self).fds().contains(handle));
                }
            },
        }
    }

    /// Watches `handle` for reading.
    pub fn set_pollin(&mut self, handle: i32)
        requires
            old(self).wf(),
            0 <= handle < FD_SETSIZE,
        ensures
            final(self).wf(),
            final(self).fds() == old(self).fds(),
            final(self).read_set() == old(self).read_set().update(handle as int, true),
            final(self).write_set() == old(self).write_set(),
            final(self).error_set() == old(self).error_set(),
    {
        self.read.set(handle as usize, true);
    }

    /// Stops watching `handle` for reading.
    pub fn reset_pollin(&mut self, handle: i32)
        requires
            old(self).wf(),
            0 <= handle < FD_SETSIZE,
        ensures
            final(self).wf(),
            final(self).fds() == old(self).fds(),
            final(self).read_set() == old(self).read_set().update(handle as int, false),
            final(self).write_set() == old(self).write_set(),
            final(self).error_set() == old(self).error_set(),
    {
        self.read.set(handle as usize, false);
    }
}

} // verus!
