use vstd::prelude::*;

verus! {

pub const ZMQ_PAIR: i32 = 0;

pub const EAGAIN: i32 = 11;

/// The context a socket belongs to.
#[derive(Clone, Copy)]
pub struct Context;

/// The pipe end a PAIR socket talks through, known by its id.
pub struct Pipe {
    pub id: u64,
}

/// A message as the PAIR socket sees it: only its flags.
pub struct Message {
    flags: u32,
}

impl Message {
    pub closed spec fn flag_bits(&self) -> u32 {
        self.flags
    }

    /// A message with these flag bits.
    pub fn new(flags: u32) -> (m: Self)
        ensures
            m.flag_bits() == flags,
    {
        Message { flags }
    }

    /// Whether more parts of the message follow (flag bit 1).
    pub fn has_more(&self) -> (r: bool)
        ensures
            r == (self.flag_bits() & 1 != 0),
    {
        self.flags & 1 != 0
    }
}

/// A PAIR socket: connected to at most one peer through one pipe.
pub struct Pair {
    pipe: Option<Pipe>,
    ctx: Context,
    tid: u32,
    sid: i32,
}

impl Pair {
    /// Whether the socket has its pipe.
    pub closed spec fn attached(&self) -> bool {
        self.pipe is Some
    }

    /// The id of the pipe the socket talks through, if any.
    pub closed spec fn attached_pipe(&self) -> Option<u64> {
        match self.pipe {
            Some(p) => Some(p.id),
            None => None,
        }
    }

    pub closed spec fn thread_id(&self) -> u32 {
        self.tid
    }

    pub closed spec fn socket_id(&self) -> i32 {
        self.sid
    }

    pub fn new(parent: &Context, tid: u32, sid: i32) -> (p: Self)
        ensures
            !p.attached(),
            p.thread_id() == tid,
            p.socket_id() == sid,
    {
        Self { pipe: None, ctx: *parent, tid, sid }
    }

    /// Takes the pipe of the first connection.  (A second pipe would be
    /// terminated at once, which needs the pipe machinery this socket does
    /// not have, so it is not accepted here.)
    pub fn attach_pipe(&mut self, pipe: Pipe, _subscribe_to_all: bool, _locally_initiated: bool)
        requires
            !old(self).attached(),
        ensures
            final(self).attached(),
            final(self).attached_pipe() == Some(pipe.id),
            final(self).thread_id() == old(self).thread_id(),
            final(self).socket_id() == old(self).socket_id(),
    {
        if self.pipe.is_none() {
            self.pipe = Some(pipe);
        }
    }

    /// Without a pipe there is nobody to send to: EAGAIN.
    pub fn send(&mut self, _msg: &mut Message) -> (r: Result<(), i32>)
        requires
            !old(self).attached(),
        ensures
            r == Err::<(), i32>(EAGAIN),
            *final(_msg) == *old(_msg),
            !final(self).attached(),
    {
        if self.pipe.is_some() {
            Ok(())
        } else {
            Err(EAGAIN)
        }
    }

    /// Without a pipe nothing can be read.
    pub fn has_in(&self) -> (r: bool)
        requires
            !self.attached(),
        ensures
            !r,
    {
        self.pipe.is_some()
    }

    /// Without a pipe nothing can be written.
    pub fn has_out(&self) -> (r: bool)
        requires
            !self.attached(),
        ensures
            !r,
    {
        self.pipe.is_some()
    }

    /// There is just one pipe, so there is nothing to do.
    pub fn read_activated(&mut self, _pipe: &Pipe)
        ensures
            final(self).attached() == old(self).attached(),
            final(self).attached_pipe() == old(self).attached_pipe(),
            final(self).thread_id() == old(self).thread_id(),
            final(self).socket_id() == old(self).socket_id(),
    {
    }

    /// A pipe went away: where it is the socket's pipe, the socket lets it go.
    pub fn pipe_terminated(&mut self, pipe: &Pipe)
        ensures
            final(self).attached_pipe() == (if old(self).attached_pipe() == Some(pipe.id) {
                None::<u64>
            } else {
                old(self).attached_pipe()
            }),
            final(self).attached() == (final(self).attached_pipe() is Some),
            final(self).thread_id() == old(self).thread_id(),
            final(self).socket_id() == old(self).socket_id(),
    {
        let same = match &self.pipe {
            Some(p) => p.id == pipe.id,
            None => false,
        };
        if same {
            self.pipe = None;
        }
    }

    /// There is just one pipe, so there is nothing to do.
    pub fn write_activated(&mut self, _pipe: &Pipe)
        ensures
            final(self).attached() == old(self).attached(),
            final(self).attached_pipe() == old(self).attached_pipe(),
            final(self).thread_id() == old(self).thread_id(),
            final(self).socket_id() == old(self).socket_id(),
    {
    }
}

} // verus!
