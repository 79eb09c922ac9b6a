use vstd::prelude::*;

verus! {

/// The descriptor of an entry that was removed.
pub const RETIRED_FD: i32 = -1;

/// How many events one wait reports at most.
pub const MAX_IO_EVENTS: usize = 1024;

/// The commands of a pollset: add a descriptor, delete it, change its events.
pub const PS_ADD: i32 = 1;
pub const PS_DELETE: i32 = 2;
pub const PS_MOD: i32 = 3;

/// The events a descriptor is watched for.
pub const POLLIN: i32 = 1;
pub const POLLOUT: i32 = 4;

/// Interrupted system call.
pub const EINTR: i32 = 4;

/// One change to the pollset: the command for the descriptor, with events.
#[derive(PartialEq, Eq, Debug, Clone, Copy, Structural)]
pub struct PollCtl {
    pub fd: i32,
    pub cmd: i32,
    pub events: i32,
}

/// A watched descriptor: whether it is watched for input and for output,
/// and the handler its events go to.
#[derive(PartialEq, Eq, Debug, Clone, Copy, Structural)]
pub struct PollEntry {
    pub fd: i32,
    pub flag_pollin: bool,
    pub flag_pollout: bool,
    pub events: u64,
}

/// Why a pollset could not be had.
#[derive(PartialEq, Eq, Debug, Clone, Copy, Structural)]
pub enum PollsetError {
    /// The system gave no pollset.
    CreateFailed,
}

/// A poller over the system's pollset: the entries by descriptor, those
/// removed since the last wait, and whether it is to stop.
pub struct Pollset {
    pollset_fd: i32,
    retired: Vec<PollEntry>,
    fd_table: Vec<Option<PollEntry>>,
    stopping: bool,
}

/// The table after `fd` is entered: grown with empty slots up to `fd`
/// where it is shorter, then the slot of `fd` set.
pub open spec fn table_with(t: Seq<Option<PollEntry>>, fd: int, e: PollEntry) -> Seq<Option<PollEntry>> {
    let grown = if fd >= t.len() {
        t + Seq::new((fd + 1 - t.len()) as nat, |i: int| None::<PollEntry>)
    } else {
        t
    };
    grown.update(fd, Some(e))
}

impl Pollset {
    pub closed spec fn spec_pollset_fd(&self) -> i32 {
        self.pollset_fd
    }

    pub closed spec fn table(&self) -> Seq<Option<PollEntry>> {
        self.fd_table@
    }

    pub closed spec fn retired(&self) -> Seq<PollEntry> {
        self.retired@
    }

    pub closed spec fn spec_stopping(&self) -> bool {
        self.stopping
    }

    /// A poller over the pollset `pollset_fd` the system gave; -1 means the
    /// system gave none.
    pub fn new(pollset_fd: i32) -> (r: Result<Self, PollsetError>)
        ensures
            pollset_fd == -1 ==> r == Err::<Self, PollsetError>(PollsetError::CreateFailed),
            pollset_fd != -1 ==> (r matches Ok(p) && p.spec_pollset_fd() == pollset_fd
                && p.table() == Seq::<Option<PollEntry>>::empty() && p.retired()
                == Seq::<PollEntry>::empty() && !p.spec_stopping()),
    {
        if pollset_fd == -1 {
            return Err(PollsetError::CreateFailed);
        }
        Ok(Pollset { pollset_fd, retired: Vec::new(), fd_table: Vec::new(), stopping: false })
    }

    /// Watches `fd`, for nothing yet, with `events` as its handler: returns
    /// the entry and the change to make to the pollset.
    pub fn add_fd(&mut self, fd: i32, events: u64) -> (r: (PollEntry, PollCtl))
        requires
            fd >= 0,
        ensures
            r.0 == (PollEntry { fd, flag_pollin: false, flag_pollout: false, events }),
            r.1 == (PollCtl { fd, cmd: PS_ADD, events: 0 }),
            final(self).table() == table_with(old(self).table(), fd as int, r.0),
            final(self).retired() == old(self).retired(),
            final(self).spec_stopping() == old(self).spec_stopping(),
            final(self).spec_pollset_fd() == old(self).spec_pollset_fd(),
    {
        let entry = PollEntry { fd, flag_pollin: false, flag_pollout: false, events };
        let pc = PollCtl { fd, cmd: PS_ADD, events: 0 };
        let idx = fd as usize;
        let ghost t0 = self.fd_table@;
        while self.fd_table.len() <= idx
            invariant
                self.retired@ == old(self).retired@,
                self.pollset_fd == old(self).pollset_fd,
                self.stopping == old(self).stopping,
                t0.len() <= self.fd_table@.len() <= (if idx + 1 > t0.len() { idx + 1 } else { t0.len() as int }),
                self.fd_table@ == t0 + Seq::new((self.fd_table@.len() - t0.len()) as nat, |i: int| None::<PollEntry>),
            decreases idx + 1 - self.fd_table@.len(),
        {
            self.fd_table.push(None);
            assert(self.fd_table@ =~= t0 + Seq::new((self.fd_table@.len() - t0.len()) as nat, |i: int| None::<PollEntry>));
        }
        proof {
            if idx >= t0.len() {
                assert(self.fd_table@.len() == idx + 1);
            } else {
                assert(self.fd_table@ =~= t0);
            }
        }
        self.fd_table.set(idx, Some(entry));
        (entry, pc)
    }

    /// Stops watching the descriptor of `handle`: empties its slot and
    /// keeps the entry, marked retired, until the next wait is through;
    /// returns the change to make to the pollset.
    pub fn rm_fd(&mut self, handle: PollEntry) -> (pc: PollCtl)
        requires
            0 <= handle.fd < old(self).table().len(),
        ensures
            pc == (PollCtl { fd: handle.fd, cmd: PS_DELETE, events: 0 }),
            final(self).table() == old(self).table().update(handle.fd as int, None),
            final(self).retired() == old(self).retired().push(PollEntry { fd: RETIRED_FD, ..handle }),
            final(self).spec_stopping() == old(self).spec_stopping(),
            final(self).spec_pollset_fd() == old(self).spec_pollset_fd(),
    {
        let pc = PollCtl { fd: handle.fd, cmd: PS_DELETE, events: 0 };
        self.fd_table.set(handle.fd as usize, None);
        let mut retired_entry = handle;
        retired_entry.fd = RETIRED_FD;
        self.retired.push(retired_entry);
        pc
    }

    /// Watches the descriptor for input, unless it already is; returns the
    /// changes to make to the pollset.
    pub fn set_pollin(&mut self, handle: &mut PollEntry) -> (ctls: Vec<PollCtl>)
        ensures
            ctls@ == (if old(handle).flag_pollin {
                Seq::<PollCtl>::empty()
            } else {
                seq![PollCtl { fd: old(handle).fd, cmd: PS_MOD, events: POLLIN }]
            }),
            *final(handle) == (PollEntry { flag_pollin: true, ..*old(handle) }),
            final(self).table() == old(self).table(),
            final(self).retired() == old(self).retired(),
            final(self).spec_stopping() == old(self).spec_stopping(),
            final(self).spec_pollset_fd() == old(self).spec_pollset_fd(),
    {
        let mut ctls: Vec<PollCtl> = Vec::new();
        if !handle.flag_pollin {
            ctls.push(PollCtl { fd: handle.fd, cmd: PS_MOD, events: POLLIN });
            handle.flag_pollin = true;
        }
        proof {
            if old(handle).flag_pollin {
                assert(ctls@ =~= Seq::<PollCtl>::empty());
            } else {
                assert(ctls@ =~= seq![PollCtl { fd: old(handle).fd, cmd: PS_MOD, events: POLLIN }]);
            }
        }
        ctls
    }

    /// Stops watching the descriptor for input: deletes it from the pollset
    /// and, where it is watched for output, adds it back for that alone;
    /// returns the changes to make.
    pub fn reset_pollin(&mut self, handle: &mut PollEntry) -> (ctls: Vec<PollCtl>)
        ensures
            ctls@ == (if !old(handle).flag_pollin {
                Seq::<PollCtl>::empty()
            } else if old(handle).flag_pollout {
                seq![
                    PollCtl { fd: old(handle).fd, cmd: PS_DELETE, events: 0 },
                    PollCtl { fd: old(handle).fd, cmd: PS_MOD, events: POLLOUT },
                ]
            } else {
                seq![PollCtl { fd: old(handle).fd, cmd: PS_DELETE, events: 0 }]
            }),
            *final(handle) == (PollEntry { flag_pollin: false, ..*old(handle) }),
            final(self).table() == old(self).table(),
            final(self).retired() == old(self).retired(),
            final(self).spec_stopping() == old(self).spec_stopping(),
            final(self).spec_pollset_fd() == old(self).spec_pollset_fd(),
    {
        let mut ctls: Vec<PollCtl> = Vec::new();
        if !handle.flag_pollin {
            assert(ctls@ =~= Seq::<PollCtl>::empty());
            return ctls;
        }
        let mut pc = PollCtl { fd: handle.fd, cmd: PS_DELETE, events: 0 };
        ctls.push(pc);
        if handle.flag_pollout {
            pc.cmd = PS_MOD;
            pc.events = POLLOUT;
            ctls.push(pc);
        }
        handle.flag_pollin = false;
        proof {
            if old(handle).flag_pollout {
                assert(ctls@ =~= seq![
                    PollCtl { fd: old(handle).fd, cmd: PS_DELETE, events: 0 },
                    PollCtl { fd: old(handle).fd, cmd: PS_MOD, events: POLLOUT },
                ]);
            } else {
                assert(ctls@ =~= seq![PollCtl { fd: old(handle).fd, cmd: PS_DELETE, events: 0 }]);
            }
        }
        ctls
    }

    /// Nothing to do before the loop runs.
    pub fn start(&mut self)
        ensures
            *final(self) == *old(self),
    {
    }

    /// Asks the loop to end.
    pub fn stop(&mut self)
        ensures
            final(self).spec_stopping(),
            final(self).table() == old(self).table(),
            final(self).retired() == old(self).retired(),
            final(self).spec_pollset_fd() == old(self).spec_pollset_fd(),
    {
        self.stopping = true;
    }

    /// There is no limit on the descriptors.
    pub fn max_fds() -> (r: i32)
        ensures
            r == -1,
    {
        -1
    }

    /// How many descriptors the table has room for.
    pub fn table_len(&self) -> (n: usize)
        ensures
            n == self.table().len(),
    {
        self.fd_table.len()
    }

    /// Whether the loop waits once more.
    pub fn should_poll(&self) -> (r: bool)
        ensures
            r == !self.spec_stopping(),
    {
        !self.stopping
    }

    /// How long a wait lasts (ms): no timer is due, so until an event.
    pub fn poll_timeout(&self) -> (r: i32)
        ensures
            r == -1,
    {
        let timeout: i32 = 0;
        if timeout > 0 {
            timeout
        } else {
            -1
        }
    }

    /// What a wait returned: the descriptors with events, or the error.
    /// Returns whether the loop goes on: after an interrupted wait it does,
    /// with nothing done; after another error it ends; after events it
    /// looks each descriptor up, skipping retired entries, and drops the
    /// entries retired before.
    pub fn after_poll(&mut self, polled: Result<&[i32], i32>) -> (go_on: bool)
        requires
            polled matches Ok(fds) ==> forall|i: int|
                0 <= i < fds@.len() ==> 0 <= #[trigger] fds@[i] < old(self).table().len(),
        ensures
            go_on == (polled is Ok || polled == Err::<&[i32], i32>(EINTR)),
            final(self).retired() == (if polled is Ok {
                Seq::<PollEntry>::empty()
            } else {
                old(self).retired()
            }),
            final(self).table() == old(self).table(),
            final(self).spec_stopping() == old(self).spec_stopping(),
            final(self).spec_pollset_fd() == old(self).spec_pollset_fd(),
    {
        match polled {
            Err(e) => e == EINTR,
            Ok(fds) => {
                let mut i: usize = 0;
                while i < fds.len()
                    invariant
                        i <= fds@.len(),
                        forall|j: int| 0 <= j < fds@.len() ==> 0 <= #[trigger] fds@[j] < self.fd_table@.len(),
                    decreases fds@.len() - i,
                {
                    let fd = fds[i];
                    match &self.fd_table[fd as usize] {
                        Some(pe) => {
                            if pe.fd == RETIRED_FD {
                                i = i + 1;
                                continue;
                            }
                        },
                        None => {},
                    }
                    i = i + 1;
                }
                self.retired.clear();
                true
            },
        }
    }
}

} // verus!
