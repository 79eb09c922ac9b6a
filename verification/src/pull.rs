use crate::server::{Context, FairQueue, Message, Pipe};
use vstd::prelude::*;

verus! {

/// The socket type number of a PULL socket.
pub const ZMQ_PULL: i32 = 7;

/// A PULL socket: reads the messages that arrive on its pipes, taking the
/// pipes in turn.
pub struct Pull {
    fair_queue: FairQueue,
    socket_type: i32,
    tid: u32,
    sid: i32,
}

impl Pull {
    /// The frames waiting to be read, each with the routing id of its pipe,
    /// in the order the socket hands them out.
    pub closed spec fn frames(&self) -> Seq<(u32, Message)> {
        self.fair_queue.frames()
    }

    /// The routing ids of the pipes read from, in the order they came.
    pub closed spec fn pipes(&self) -> Seq<u32> {
        self.fair_queue.pipes()
    }

    pub closed spec fn spec_socket_type(&self) -> i32 {
        self.socket_type
    }

    pub closed spec fn spec_ids(&self) -> (u32, i32) {
        (self.tid, self.sid)
    }

    /// A PULL socket of thread `tid` with socket id `sid`, with nothing to read.
    pub fn new(_parent: &Context, tid: u32, sid: i32) -> (s: Self)
        ensures
            s.frames() == Seq::<(u32, Message)>::empty(),
            s.pipes() == Seq::<u32>::empty(),
            s.spec_socket_type() == ZMQ_PULL,
            s.spec_ids() == (tid, sid),
    {
        Pull { fair_queue: FairQueue::new(), socket_type: ZMQ_PULL, tid, sid }
    }

    /// Reads from `pipe` from now on.
    pub fn attach_pipe(&mut self, pipe: &Pipe, _subscribe_to_all: bool, _locally_initiated: bool)
        ensures
            final(self).frames() == old(self).frames(),
            final(self).pipes() == old(self).pipes().push(pipe.spec_routing_id()),
            final(self).spec_socket_type() == old(self).spec_socket_type(),
            final(self).spec_ids() == old(self).spec_ids(),
    {
        self.fair_queue.attach(pipe.routing_id());
    }

    /// A frame arrives on the pipe with routing id `routing_id`.
    pub fn push_inbound(&mut self, routing_id: u32, msg: Message)
        ensures
            final(self).frames() == old(self).frames().push((routing_id, msg)),
            final(self).spec_socket_type() == old(self).spec_socket_type(),
            final(self).spec_ids() == old(self).spec_ids(),
    {
        self.fair_queue.push(routing_id, msg);
    }

    /// Moves the next frame into `msg`; `EAGAIN` when there is none, and
    /// then `msg` is left as it was.
    pub fn recv(&mut self, msg: &mut Message) -> (r: Result<(), i32>)
        ensures
            old(self).frames().len() == 0 ==> r == Err::<(), i32>(crate::server::EAGAIN)
                && *final(msg) == *old(msg) && final(self).frames() == old(self).frames(),
            old(self).frames().len() > 0 ==> r == Ok::<(), i32>(())
                && *final(msg) == old(self).frames()[0].1
                && final(self).frames() == old(self).frames().drop_first(),
            final(self).spec_socket_type() == old(self).spec_socket_type(),
            final(self).spec_ids() == old(self).spec_ids(),
    {
        match self.fair_queue.recvpipe(msg) {
            Ok(_) => Ok(()),
            Err(e) => Err(e),
        }
    }

    /// Whether a frame is waiting.
    pub fn has_in(&self) -> (r: bool)
        ensures
            r == (self.frames().len() > 0),
    {
        self.fair_queue.has_in()
    }

    /// `pipe` has frames to read again.
    pub fn read_activated(&mut self, _pipe: &Pipe)
        ensures
            *final(self) == *old(self),
    {
    }

    /// `pipe` has gone.
    pub fn pipe_terminated(&mut self, _pipe: &Pipe)
        ensures
            *final(self) == *old(self),
    {
    }
}

} // verus!
