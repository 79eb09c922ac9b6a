use crate::scatter::{LoadBalancer, Msg, Pipe};
use crate::server::Context;
use vstd::prelude::*;

verus! {

/// The socket type number of a PUSH socket.
pub const ZMQ_PUSH: i32 = 8;

/// A PUSH socket: hands each outgoing message to one of its pipes, in turn.
pub struct Push {
    lb: LoadBalancer,
    socket_type: i32,
    tid: u32,
    sid: i32,
}

impl Push {
    /// How many pipes the socket sends through.
    pub closed spec fn pipe_count(&self) -> nat {
        self.lb.count()
    }

    pub closed spec fn spec_socket_type(&self) -> i32 {
        self.socket_type
    }

    pub closed spec fn spec_ids(&self) -> (u32, i32) {
        (self.tid, self.sid)
    }

    /// A PUSH socket of thread `tid` with socket id `sid`, with no pipe yet.
    pub fn new(_parent: &mut Context, tid: u32, sid: i32) -> (s: Self)
        ensures
            s.pipe_count() == 0,
            s.spec_socket_type() == ZMQ_PUSH,
            s.spec_ids() == (tid, sid),
    {
        Push { lb: LoadBalancer::new(), socket_type: ZMQ_PUSH, tid, sid }
    }

    /// Sends through `pipe` from now on; the pipe does not wait for a
    /// delimiter to terminate, as no one receives it here.
    pub fn attach_pipe(&mut self, pipe: Pipe, _subscribe_to_all: bool, _locally_initiated: bool)
        ensures
            final(self).pipe_count() == old(self).pipe_count() + 1,
            final(self).spec_socket_type() == old(self).spec_socket_type(),
            final(self).spec_ids() == old(self).spec_ids(),
    {
        pipe.set_nodelay();
        self.lb.attach(pipe);
    }

    /// Sends `msg` down one of the pipes: 0 when sent, -1 when there is no
    /// pipe to send through.
    pub fn send(&mut self, msg: &mut Msg) -> (r: i32)
        ensures
            r == (if old(self).pipe_count() == 0 { -1i32 } else { 0i32 }),
            final(self).pipe_count() == old(self).pipe_count(),
            final(self).spec_socket_type() == old(self).spec_socket_type(),
            final(self).spec_ids() == old(self).spec_ids(),
            *final(msg) == *old(msg),
    {
        match self.lb.send(msg) {
            Ok(()) => 0,
            Err(_) => -1,
        }
    }

    /// Whether there is a pipe to send through.
    pub fn has_out(&self) -> (r: bool)
        ensures
            r == (self.pipe_count() > 0),
    {
        self.lb.has_out()
    }

    /// `pipe` has room again.
    pub fn write_activated(&mut self, pipe: &Pipe)
        ensures
            final(self).pipe_count() == old(self).pipe_count(),
            final(self).spec_socket_type() == old(self).spec_socket_type(),
            final(self).spec_ids() == old(self).spec_ids(),
    {
        self.lb.activated(pipe);
    }

    /// `pipe` has gone.
    pub fn pipe_terminated(&mut self, pipe: &Pipe)
        ensures
            final(self).pipe_count() == old(self).pipe_count(),
            final(self).spec_socket_type() == old(self).spec_socket_type(),
            final(self).spec_ids() == old(self).spec_ids(),
    {
        self.lb.pipe_terminated(pipe);
    }
}

} // verus!
