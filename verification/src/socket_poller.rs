use vstd::prelude::*;

verus! {

/// The mark of a live poller.
pub const CAFEBABE: u32 = 0xCAFEBABE;

/// Why a poller refused a request.
#[derive(Debug, Clone, Copy, PartialEq, Eq, Structural)]
pub enum PollerError {
    /// The socket is already in the poller, or there is nothing to wait
    /// for and no time limit.
    InvalidInput,
}

/// A socket the poller watches: the socket, by its id; the descriptor; what
/// the caller attached to it; and the events asked for.
#[derive(Debug, Clone, Copy, PartialEq, Eq, Structural)]
pub struct Item {
    pub socket: Option<u64>,
    pub fd: i32,
    pub user_data: u64,
    pub events: i16,
}

/// An event the poller reports.
#[derive(Debug, Clone, Copy, PartialEq, Eq, Structural)]
pub struct Event {
    pub socket: Option<u64>,
    pub fd: i32,
    pub user_data: u64,
    pub events: i16,
}

/// Whether some item of `items` watches `socket`.
pub open spec fn watches(items: Seq<Item>, socket: u64) -> bool {
    exists|i: int| 0 <= i < items.len() && #[trigger] items[i].socket == Some(socket)
}

/// Waits on several sockets at once.
pub struct SocketPoller {
    pub tag: u32,
    /// Whether the poller has made its signaler, for thread-safe sockets.
    pub has_signaler: bool,
    pub items: Vec<Item>,
    pub need_rebuild: bool,
    pub use_signaler: bool,
    pub pollset_size: i32,
}

impl SocketPoller {
    pub fn new() -> (p: Self)
        ensures
            p.tag == CAFEBABE,
            !p.has_signaler,
            p.items@ == Seq::<Item>::empty(),
            !p.need_rebuild,
            !p.use_signaler,
            p.pollset_size == 0,
    {
        SocketPoller {
            tag: CAFEBABE,
            has_signaler: false,
            items: Vec::new(),
            need_rebuild: false,
            use_signaler: false,
            pollset_size: 0,
        }
    }

    /// Watches `socket` for `events`, with `user_data` attached; a
    /// thread-safe socket needs the poller's signaler, made here if it is
    /// not yet. A socket already watched is refused.
    pub fn add(&mut self, socket: u64, user_data: u64, events: i16, thread_safe: bool) -> (r: Result<(), PollerError>)
        ensures
            final(self).tag == old(self).tag,
            final(self).use_signaler == old(self).use_signaler,
            final(self).pollset_size == old(self).pollset_size,
            watches(old(self).items@, socket) ==> r == Err::<(), PollerError>(
                PollerError::InvalidInput,
            ) && *final(self) == *old(self),
            !watches(old(self).items@, socket) ==> r is Ok && final(self).items@ == old(
                self,
            ).items@.push(Item { socket: Some(socket), fd: 0, user_data, events })
                && final(self).need_rebuild && final(self).has_signaler == (old(
                self,
            ).has_signaler || thread_safe),
    {
        let mut i: usize = 0;
        while i < self.items.len()
            invariant
                i <= self.items@.len(),
                forall|j: int| 0 <= j < i ==> self.items@[j].socket != Some(socket),
            decreases self.items@.len() - i,
        {
            if self.items[i].socket == Some(socket) {
                return Err(PollerError::InvalidInput);
            }
            i += 1;
        }
        if thread_safe && !self.has_signaler {
            self.has_signaler = true;
        }
        self.items.push(Item { socket: Some(socket), fd: 0, user_data, events });
        self.need_rebuild = true;
        Ok(())
    }

    /// Waits up to `timeout` milliseconds (`None`: for ever) for events,
    /// rebuilding the poll set first where items changed; the number of
    /// events. Waiting for ever on nothing is refused.
    pub fn wait(&mut self, _events: &mut [Event], timeout: Option<u64>) -> (r: Result<i32, PollerError>)
        ensures
            old(self).items@.len() == 0 && timeout is None ==> r == Err::<i32, PollerError>(
                PollerError::InvalidInput,
            ) && *final(self) == *old(self),
            !(old(self).items@.len() == 0 && timeout is None) ==> r == Ok::<i32, PollerError>(0)
                && !final(self).need_rebuild && final(self).items == old(self).items,
            final(self).tag == old(self).tag,
    {
        if self.items.len() == 0 && timeout.is_none() {
            return Err(PollerError::InvalidInput);
        }
        if self.need_rebuild {
            self.need_rebuild = false;
        }
        Ok(0)
    }
}

} // verus!
