use vstd::prelude::*;

verus! {

/// The socket type number of SCATTER.
pub const ZMQ_SCATTER: i32 = 1;

/// Message flags: whether more parts follow.
#[derive(Clone, Copy, PartialEq, Eq, Structural)]
pub struct MsgFlags {
    more: bool,
}

impl MsgFlags {
    pub closed spec fn spec_more(&self) -> bool {
        self.more
    }

    pub fn more(&self) -> (r: bool)
        ensures
            r == self.spec_more(),
    {
        self.more
    }
}

/// A message: flags and body.
pub struct Msg {
    flags: MsgFlags,
    data: Vec<u8>,
}

/// The outbound end of a pipe.
pub struct Pipe {
    nodelay: bool,
}

/// Why SCATTER refused to send.
#[derive(Clone, Copy, PartialEq, Eq, Debug)]
pub enum ScatterError {
    /// The message has more parts; SCATTER sends single-part messages only.
    MultipartNotAllowed,
    /// There is no pipe to send through.
    NoPipes,
}

/// Spreads outgoing messages over the attached pipes.
pub(crate) struct LoadBalancer {
    pipes: Vec<Pipe>,
}

impl LoadBalancer {
    pub(crate) closed spec fn count(&self) -> nat {
        self.pipes@.len()
    }

    pub(crate) fn new() -> (lb: Self)
        ensures
            lb.count() == 0,
    {
        LoadBalancer { pipes: Vec::new() }
    }

    pub(crate) fn attach(&mut self, pipe: Pipe)
        ensures
            final(self).count() == old(self).count() + 1,
    {
        self.pipes.push(pipe);
    }

    pub(crate) fn activated(&mut self, _pipe: &Pipe)
        ensures
            final(self).count() == old(self).count(),
    {
    }

    pub(crate) fn pipe_terminated(&mut self, _pipe: &Pipe)
        ensures
            final(self).count() == old(self).count(),
    {
    }

    pub(crate) fn send(&mut self, _msg: &Msg) -> (r: Result<(), ScatterError>)
        ensures
            final(self).count() == old(self).count(),
            r == if old(self).count() == 0 {
                Err::<(), ScatterError>(ScatterError::NoPipes)
            } else {
                Ok(())
            },
    {
        if self.pipes.len() == 0 {
            return Err(ScatterError::NoPipes);
        }
        Ok(())
    }

    pub(crate) fn has_out(&self) -> (r: bool)
        ensures
            r == (self.count() > 0),
    {
        self.pipes.len() != 0
    }
}

/// A SCATTER socket: sends single-part messages, each down one of its pipes.
pub struct Scatter {
    lb: LoadBalancer,
    socket_type: i32,
}

impl Scatter {
    /// How many pipes the socket sends through.
    pub closed spec fn pipe_count(&self) -> nat {
        self.lb.count()
    }

    pub closed spec fn spec_socket_type(&self) -> i32 {
        self.socket_type
    }

    pub fn new() -> (s: Self)
        ensures
            s.pipe_count() == 0,
            s.spec_socket_type() == ZMQ_SCATTER,
    {
        Scatter { lb: LoadBalancer::new(), socket_type: ZMQ_SCATTER }
    }

    pub fn attach_pipe(&mut self, pipe: Pipe)
        ensures
            final(self).pipe_count() == old(self).pipe_count() + 1,
            final(self).spec_socket_type() == old(self).spec_socket_type(),
    {
        pipe.set_nodelay();
        self.lb.attach(pipe);
    }

    /// Refuses a message with more parts, then one with no pipe to go to.
    pub fn send(&mut self, msg: &Msg) -> (r: Result<(), ScatterError>)
        ensures
            final(self).pipe_count() == old(self).pipe_count(),
            final(self).spec_socket_type() == old(self).spec_socket_type(),
            r == if msg.spec_flags().spec_more() {
                Err::<(), ScatterError>(ScatterError::MultipartNotAllowed)
            } else if old(self).pipe_count() == 0 {
                Err::<(), ScatterError>(ScatterError::NoPipes)
            } else {
                Ok(())
            },
    {
        if msg.flags.more {
            return Err(ScatterError::MultipartNotAllowed);
        }
        self.lb.send(msg)
    }

    pub fn has_out(&self) -> (r: bool)
        ensures
            r == (self.pipe_count() > 0),
    {
        self.lb.has_out()
    }

    pub fn write_activated(&mut self, pipe: &Pipe)
        ensures
            final(self).pipe_count() == old(self).pipe_count(),
            final(self).spec_socket_type() == old(self).spec_socket_type(),
    {
        self.lb.activated(pipe);
    }

    pub fn pipe_terminated(&mut self, pipe: &Pipe)
        ensures
            final(self).pipe_count() == old(self).pipe_count(),
            final(self).spec_socket_type() == old(self).spec_socket_type(),
    {
        self.lb.pipe_terminated(pipe);
    }
}

impl Pipe {
    pub closed spec fn spec_nodelay(&self) -> bool {
        self.nodelay
    }

    pub fn new() -> (p: Self)
        ensures
            !p.spec_nodelay(),
    {
        Pipe { nodelay: false }
    }

    /// Asks the pipe to pass messages on without waiting to batch them; the
    /// pipe keeps no state for it.
    pub(crate) fn set_nodelay(&self) {
    }
}

impl Msg {
    pub closed spec fn spec_flags(&self) -> MsgFlags {
        self.flags
    }

    pub closed spec fn body(&self) -> Seq<u8> {
        self.data@
    }

    pub fn new() -> (m: Self)
        ensures
            !m.spec_flags().spec_more(),
            m.body() == Seq::<u8>::empty(),
    {
        Msg { flags: MsgFlags { more: false }, data: Vec::new() }
    }

    pub fn flags(&self) -> (f: MsgFlags)
        ensures
            f == self.spec_flags(),
    {
        self.flags
    }

    /// Marks whether more parts follow.
    pub fn set_more(&mut self, more: bool)
        ensures
            final(self).spec_flags().spec_more() == more,
            final(self).body() == old(self).body(),
    {
        self.flags = MsgFlags { more };
    }
}

} // verus!
