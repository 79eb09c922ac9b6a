use vstd::prelude::*;

verus! {

/// The context a reaper belongs to.
pub struct Context;

/// A mailbox: the descriptor it signals on, where it has one.
#[derive(Debug, Clone, Copy, PartialEq, Eq, Structural)]
pub struct Mailbox {
    pub fd: Option<i32>,
}

impl Mailbox {
    /// A mailbox with no descriptor.
    pub fn new() -> (m: Self)
        ensures
            m.fd is None,
    {
        Mailbox { fd: None }
    }

    pub fn valid(&self) -> (b: bool)
        ensures
            b == self.fd is Some,
    {
        self.fd.is_some()
    }

    pub fn get_fd(&self) -> (fd: Option<i32>)
        ensures
            fd == self.fd,
    {
        self.fd
    }

    /// Takes the next command into `cmd`: no command system is linked in,
    /// so the call succeeds and leaves `cmd` as it was.
    pub fn recv(&self, cmd: &mut Command, _flags: i32) -> (r: Result<(), i32>)
        ensures
            r is Ok,
            *final(cmd) == *old(cmd),
    {
        Ok(())
    }
}

/// Interrupted system call.
pub const EINTR: i32 = 4;

/// No command waits.
pub const EAGAIN: i32 = 11;

/// A command for an object, named by its id.
#[derive(Debug, Clone, Copy, PartialEq, Eq, Structural)]
pub struct Command {
    pub destination: u64,
}

/// The poller a reaper watches its mailbox with.
pub struct Poller {
    pub context: Context,
}

impl Poller {
    pub fn new(context: Context) -> (p: Self)
        ensures
            p == (Poller { context }),
    {
        Poller { context }
    }

    /// Watches `fd`; the handle is the descriptor itself.
    pub fn add_fd(&mut self, fd: i32) -> (h: i32)
        ensures
            h == fd,
            *final(self) == *old(self),
    {
        fd
    }

    /// The poller keeps no flags: nothing changes.
    pub fn set_pollin(&mut self, _handle: i32)
        ensures
            *final(self) == *old(self),
    {
    }

    pub fn rm_fd(&mut self, _handle: i32)
        ensures
            *final(self) == *old(self),
    {
    }

    /// No thread is started here: nothing changes.
    pub fn start(&mut self, _thread_name: &str)
        ensures
            *final(self) == *old(self),
    {
    }

    pub fn stop(&mut self)
        ensures
            *final(self) == *old(self),
    {
    }
}

/// The reaper: it takes over closed sockets and finishes them off, and stops
/// once asked to and no socket is left.
pub struct Reaper {
    pub mailbox: Mailbox,
    pub mailbox_handle: Option<i32>,
    pub poller: Option<Poller>,
    /// Sockets being reaped.
    pub sockets: i32,
    /// Whether the reaper has been asked to stop.
    pub terminating: bool,
}

impl Reaper {
    /// A reaper over a new mailbox. Where the mailbox has a descriptor, a
    /// poller watches it for input.
    pub fn new(_context: &Context, _tid: u32) -> (r: Self)
        ensures
            r.mailbox.fd is None,
            r.mailbox_handle is None,
            r.poller is None,
            r.sockets == 0,
            !r.terminating,
    {
        let mut reaper = Reaper {
            mailbox: Mailbox::new(),
            mailbox_handle: None,
            poller: None,
            sockets: 0,
            terminating: false,
        };
        if !reaper.mailbox.valid() {
            return reaper;
        }
        let mut poller = Poller::new(Context);
        if let Some(fd) = reaper.mailbox.get_fd() {
            let h = poller.add_fd(fd);
            poller.set_pollin(h);
            reaper.mailbox_handle = Some(h);
        }
        reaper.poller = Some(poller);
        reaper
    }

    pub fn get_mailbox(&self) -> (m: &Mailbox)
        ensures
            *m == self.mailbox,
    {
        &self.mailbox
    }

    /// Starts the poller's thread; as the poller starts none, the reaper is
    /// left as it was.
    pub fn start(&mut self)
        requires
            old(self).mailbox.fd is Some,
            old(self).poller is Some,
        ensures
            *final(self) == *old(self),
            final(self).mailbox == old(self).mailbox,
            final(self).mailbox_handle == old(self).mailbox_handle,
            final(self).poller is Some,
            final(self).sockets == old(self).sockets,
            final(self).terminating == old(self).terminating,
    {
        if let Some(p) = &mut self.poller {
            p.start("Reaper");
        }
    }

    /// Asks the reaper to stop, where it has a mailbox to be asked through;
    /// returns whether the request went out.
    pub fn stop(&mut self) -> (sent: bool)
        ensures
            sent == old(self).mailbox.fd is Some,
            final(self).mailbox == old(self).mailbox,
            final(self).sockets == old(self).sockets,
            final(self).terminating == old(self).terminating,
    {
        self.get_mailbox().valid()
    }

    /// Whether the reaper is done: asked to stop with no socket left.
    pub open spec fn done(&self) -> bool {
        self.terminating && self.sockets == 0
    }

    /// One turn of reading the mailbox, given what the read gave: a
    /// command is handed to its destination, which does nothing with it,
    /// and the reading goes on; an interrupted read is tried again; when no
    /// command waits, the reading ends. Returns whether it goes on.
    pub fn in_event_step(&mut self, received: Result<(), i32>) -> (go_on: bool)
        requires
            received is Ok || received == Err::<(), i32>(EINTR) || received == Err::<(), i32>(EAGAIN),
        ensures
            go_on == (received != Err::<(), i32>(EAGAIN)),
            *final(self) == *old(self),
    {
        match received {
            Ok(()) => true,
            Err(e) => e == EINTR,
        }
    }

    /// Stops the reaper; where no socket is left it reports that it is done
    /// (the result), stops watching its mailbox and stops its poller.
    pub fn process_stop(&mut self) -> (done: bool)
        requires
            old(self).poller is Some,
        ensures
            final(self).terminating,
            final(self).sockets == old(self).sockets,
            final(self).mailbox == old(self).mailbox,
            final(self).mailbox_handle == old(self).mailbox_handle,
            final(self).poller is Some,
            done == (old(self).sockets == 0),
    {
        self.terminating = true;
        if self.sockets == 0 {
            self.finish();
            true
        } else {
            false
        }
    }

    /// Takes on one more socket to reap.
    pub fn process_reap(&mut self)
        requires
            old(self).sockets < i32::MAX,
        ensures
            final(self).sockets == old(self).sockets + 1,
            final(self).terminating == old(self).terminating,
            final(self).mailbox == old(self).mailbox,
            final(self).mailbox_handle == old(self).mailbox_handle,
            final(self).poller is Some <==> old(self).poller is Some,
    {
        self.sockets += 1;
    }

    /// One socket is reaped; where it was the last and the reaper was asked
    /// to stop, the reaper reports that it is done (the result) and stops.
    pub fn process_reaped(&mut self) -> (done: bool)
        requires
            old(self).sockets > 0,
            old(self).poller is Some,
        ensures
            final(self).sockets == old(self).sockets - 1,
            final(self).terminating == old(self).terminating,
            final(self).mailbox == old(self).mailbox,
            final(self).mailbox_handle == old(self).mailbox_handle,
            final(self).poller is Some,
            done == final(self).done(),
    {
        self.sockets -= 1;
        if self.sockets == 0 && self.terminating {
            self.finish();
            true
        } else {
            false
        }
    }

    /// Stops watching the mailbox and stops the poller; neither changes the
    /// poller, so the reaper is left as it was.
    fn finish(&mut self)
        requires
            old(self).poller is Some,
        ensures
            *final(self) == *old(self),
            final(self).poller is Some,
            final(self).sockets == old(self).sockets,
            final(self).terminating == old(self).terminating,
            final(self).mailbox == old(self).mailbox,
            final(self).mailbox_handle == old(self).mailbox_handle,
    {
        let handle = self.mailbox_handle;
        if let Some(p) = &mut self.poller {
            if let Some(h) = handle {
                p.rm_fd(h);
            }
            p.stop();
        }
    }
}

} // verus!
