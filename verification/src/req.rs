use crate::random::generate_random;
use crate::rep::{Context, EFSM};
use vstd::prelude::*;

verus! {

pub const ZMQ_REQ: i32 = 3;

/// Socket option: prefix each request with a request-id frame.
pub const ZMQ_REQ_CORRELATE: i32 = 1;

/// Socket option: allow a new request before the reply arrived.
pub const ZMQ_REQ_RELAXED: i32 = 2;

/// Bad address: the session got a frame that does not fit the request
/// envelope.
pub const EFAULT: i32 = 14;

/// The frame size of a request id.
pub const REQUEST_ID_SIZE: usize = 4;

/// An option value given as a non-negative integer.
pub open spec fn is_nonneg(optval: Option<i32>) -> bool {
    match optval {
        Some(v) => v >= 0,
        None => false,
    }
}

/// The DEALER layer underneath REQ.
pub struct Dealer;

/// A pipe a reply can come from, known by its id.
pub struct Pipe {
    pub id: u64,
}

/// The I/O thread a session runs on.
pub struct IoThread;

/// The socket a session serves.
pub struct SocketBase;

/// Socket options a session is made with.
pub struct Options {
    pub type_: i32,
}

/// A frame as REQ sees it: whether more frames follow, whether it is a
/// command, and its size.
#[derive(Clone, Copy)]
pub struct Msg {
    more: bool,
    command: bool,
    size: usize,
}

impl Msg {
    pub closed spec fn spec_more(&self) -> bool {
        self.more
    }

    pub closed spec fn spec_command(&self) -> bool {
        self.command
    }

    pub closed spec fn spec_size(&self) -> nat {
        self.size as nat
    }

    pub fn new(more: bool, command: bool, size: usize) -> (m: Self)
        ensures
            m.spec_more() == more,
            m.spec_command() == command,
            m.spec_size() == size,
    {
        Msg { more, command, size }
    }

    pub fn has_more(&self) -> (r: bool)
        ensures
            r == self.spec_more(),
    {
        self.more
    }

    pub fn is_command(&self) -> (r: bool)
        ensures
            r == self.spec_command(),
    {
        self.command
    }

    pub fn size(&self) -> (n: usize)
        ensures
            n == self.spec_size(),
    {
        self.size
    }
}

/// Where a REQ session is within the envelope of the request it passes on.
#[derive(Debug, Clone, Copy, PartialEq, Eq, Structural)]
pub enum ReqSessionState {
    Bottom,
    RequestId,
    Body,
}

/// A REQ socket: sends one request, then must receive its reply.
pub struct ReqT {
    dealer: Dealer,
    receiving_reply: bool,
    message_begins: bool,
    reply_pipe: Option<Box<Pipe>>,
    request_id_frames_enabled: bool,
    request_id: u32,
    strict: bool,
}

impl ReqT {
    pub closed spec fn spec_receiving_reply(&self) -> bool {
        self.receiving_reply
    }

    pub closed spec fn spec_message_begins(&self) -> bool {
        self.message_begins
    }

    pub closed spec fn spec_has_reply_pipe(&self) -> bool {
        self.reply_pipe is Some
    }

    /// The id of the pipe the reply is to come from, if any.
    pub closed spec fn spec_reply_pipe(&self) -> Option<u64> {
        match self.reply_pipe {
            Some(p) => Some(p.id),
            None => None,
        }
    }

    pub closed spec fn spec_request_id_frames(&self) -> bool {
        self.request_id_frames_enabled
    }

    pub closed spec fn spec_request_id(&self) -> u32 {
        self.request_id
    }

    pub closed spec fn spec_strict(&self) -> bool {
        self.strict
    }

    /// A fresh socket, ready to send; its first request id is random.
    pub fn new(parent: &mut Context, tid: u32, sid: i32) -> (r: Self)
        ensures
            !r.spec_receiving_reply(),
            r.spec_message_begins(),
            !r.spec_has_reply_pipe(),
            !r.spec_request_id_frames(),
            r.spec_strict(),
    {
        ReqT {
            dealer: Dealer,
            receiving_reply: false,
            message_begins: true,
            reply_pipe: None,
            request_id_frames_enabled: false,
            request_id: generate_random(),
            strict: true,
        }
    }

    /// Sends one frame of a request.  While a reply is owed a strict socket
    /// refuses with `EFSM`; a relaxed one drops the wait and starts anew.  The
    /// first frame of a request forgets the reply pipe and, with request ids
    /// on, takes the next id; the last frame makes the socket wait for the
    /// reply.
    pub fn xsend(&mut self, msg: &mut Msg) -> (r: Result<(), i32>)
        ensures
            *final(msg) == *old(msg),
            old(self).spec_receiving_reply() && old(self).spec_strict() ==> r == Err::<(), i32>(EFSM)
                && *final(self) == *old(self),
            !(old(self).spec_receiving_reply() && old(self).spec_strict()) ==> {
                let begins = old(self).spec_receiving_reply() || old(self).spec_message_begins();
                &&& r is Ok
                &&& final(self).spec_receiving_reply() == !old(msg).spec_more()
                &&& final(self).spec_message_begins() == !old(msg).spec_more()
                &&& final(self).spec_has_reply_pipe() == (!begins
                    && old(self).spec_has_reply_pipe())
                &&& final(self).spec_request_id() == if begins
                    && old(self).spec_request_id_frames() {
                    (old(self).spec_request_id() + 1) % 0x1_0000_0000
                } else {
                    old(self).spec_request_id() as int
                }
                &&& final(self).spec_request_id_frames() == old(self).spec_request_id_frames()
                &&& final(self).spec_strict() == old(self).spec_strict()
            },
    {
        if self.receiving_reply {
            if self.strict {
                return Err(EFSM);
            }
            self.receiving_reply = false;
            self.message_begins = true;
        }
        if self.message_begins {
            self.reply_pipe = None;
            if self.request_id_frames_enabled {
                self.request_id = self.request_id.wrapping_add(1);
            }
            self.message_begins = false;
        }
        let more = msg.has_more();
        if !more {
            self.receiving_reply = true;
            self.message_begins = true;
        }
        Ok(())
    }

    /// Receives one frame of the reply; refused with `EFSM` unless a reply is
    /// owed.  The last frame ends the wait.
    pub fn xrecv(&mut self, msg: &mut Msg) -> (r: Result<(), i32>)
        ensures
            *final(msg) == *old(msg),
            !old(self).spec_receiving_reply() ==> r == Err::<(), i32>(EFSM) && *final(self)
                == *old(self),
            old(self).spec_receiving_reply() ==> {
                &&& r is Ok
                &&& final(self).spec_receiving_reply() == old(msg).spec_more()
                &&& final(self).spec_message_begins() == !old(msg).spec_more()
                &&& final(self).spec_has_reply_pipe() == old(self).spec_has_reply_pipe()
                &&& final(self).spec_request_id() == old(self).spec_request_id()
                &&& final(self).spec_request_id_frames() == old(self).spec_request_id_frames()
                &&& final(self).spec_strict() == old(self).spec_strict()
            },
    {
        if !self.receiving_reply {
            return Err(EFSM);
        }
        while self.message_begins
            invariant
                self.receiving_reply == old(self).receiving_reply,
                self.reply_pipe == old(self).reply_pipe,
                self.request_id == old(self).request_id,
                self.request_id_frames_enabled == old(self).request_id_frames_enabled,
                self.strict == old(self).strict,
            decreases (if self.message_begins {
                1int
            } else {
                0int
            }),
        {
            self.message_begins = false;
        }
        if !msg.has_more() {
            self.receiving_reply = false;
            self.message_begins = true;
        }
        Ok(())
    }

    pub fn xhas_in(&self) -> (r: bool)
        ensures
            r == self.spec_receiving_reply(),
    {
        if !self.receiving_reply {
            return false;
        }
        true
    }

    pub fn xhas_out(&self) -> (r: bool)
        ensures
            r == !(self.spec_receiving_reply() && self.spec_strict()),
    {
        if self.receiving_reply && self.strict {
            return false;
        }
        true
    }

    /// Sets a REQ option.  `optval` is the value when it was given as an
    /// `i32`, `None` otherwise.  `ZMQ_REQ_CORRELATE` turns request ids on or
    /// off, `ZMQ_REQ_RELAXED` turns strictness off or on; each takes a
    /// non-negative integer.  Anything else is left to the DEALER layer,
    /// which accepts it.
    pub fn xsetsockopt(&mut self, option: i32, optval: Option<i32>) -> (r: Result<(), i32>)
        ensures
            r is Ok,
            final(self).spec_request_id_frames() == if option == ZMQ_REQ_CORRELATE && is_nonneg(optval) {
                optval->0 != 0
            } else {
                old(self).spec_request_id_frames()
            },
            final(self).spec_strict() == if option == ZMQ_REQ_RELAXED && is_nonneg(optval) {
                optval->0 == 0
            } else {
                old(self).spec_strict()
            },
            final(self).spec_receiving_reply() == old(self).spec_receiving_reply(),
            final(self).spec_message_begins() == old(self).spec_message_begins(),
            final(self).spec_has_reply_pipe() == old(self).spec_has_reply_pipe(),
            final(self).spec_request_id() == old(self).spec_request_id(),
    {
        let (is_int, value) = match optval {
            Some(v) => (true, v),
            None => (false, 0),
        };
        if option == ZMQ_REQ_CORRELATE {
            if is_int && value >= 0 {
                self.request_id_frames_enabled = value != 0;
                return Ok(());
            }
        } else if option == ZMQ_REQ_RELAXED {
            if is_int && value >= 0 {
                self.strict = value == 0;
                return Ok(());
            }
        }
        Ok(())
    }

    /// A pipe went away: where it is the reply pipe, the socket forgets it.
    pub fn xpipe_terminated(&mut self, pipe: &Pipe)
        ensures
            final(self).spec_reply_pipe() == (if old(self).spec_reply_pipe() == Some(pipe.id) {
                None::<u64>
            } else {
                old(self).spec_reply_pipe()
            }),
            final(self).spec_has_reply_pipe() == (final(self).spec_reply_pipe() is Some),
            final(self).spec_receiving_reply() == old(self).spec_receiving_reply(),
            final(self).spec_message_begins() == old(self).spec_message_begins(),
            final(self).spec_request_id() == old(self).spec_request_id(),
            final(self).spec_request_id_frames() == old(self).spec_request_id_frames(),
            final(self).spec_strict() == old(self).spec_strict(),
    {
        let matches = match &self.reply_pipe {
            Some(r) => r.id == pipe.id,
            None => false,
        };
        if matches {
            self.reply_pipe = None;
        }
    }
}

/// The state a REQ session moves to on a data frame, or `None` where the
/// frame breaks the envelope (bottom, optional request id, body).
pub open spec fn req_session_next(state: ReqSessionState, more: bool, size: nat) -> Option<
    ReqSessionState,
> {
    match state {
        ReqSessionState::Bottom => if more && size == REQUEST_ID_SIZE {
            Some(ReqSessionState::RequestId)
        } else if more && size == 0 {
            Some(ReqSessionState::Body)
        } else {
            None
        },
        ReqSessionState::RequestId => if more && size == 0 {
            Some(ReqSessionState::Body)
        } else {
            None
        },
        ReqSessionState::Body => if more {
            Some(ReqSessionState::Body)
        } else {
            Some(ReqSessionState::Bottom)
        },
    }
}

/// The session of a REQ socket: checks that what it passes on is shaped as
/// a request.
pub struct ReqSession {
    state: ReqSessionState,
}

impl ReqSession {
    pub closed spec fn spec_state(&self) -> ReqSessionState {
        self.state
    }

    pub fn new(
        io_thread: &mut IoThread,
        connect: bool,
        socket: &mut SocketBase,
        options: &Options,
        addr: &str,
    ) -> (s: Self)
        ensures
            s.spec_state() == ReqSessionState::Bottom,
    {
        ReqSession { state: ReqSessionState::Bottom }
    }

    /// Passes a frame on.  Commands pass untouched; a data frame passes when
    /// it fits the envelope and moves the state on, otherwise it is refused
    /// with `EFAULT` and the state stays.
    pub fn push_msg(&mut self, msg: &Msg) -> (r: Result<(), i32>)
        ensures
            msg.spec_command() ==> r is Ok && final(self).spec_state() == old(self).spec_state(),
            !msg.spec_command() ==> match req_session_next(
                old(self).spec_state(),
                msg.spec_more(),
                msg.spec_size(),
            ) {
                Some(next) => r is Ok && final(self).spec_state() == next,
                None => r == Err::<(), i32>(EFAULT) && final(self).spec_state() == old(
                    self,
                ).spec_state(),
            },
    {
        if msg.is_command() {
            return Ok(());
        }
        match self.state {
            ReqSessionState::Bottom => {
                if msg.has_more() {
                    if msg.size() == REQUEST_ID_SIZE {
                        self.state = ReqSessionState::RequestId;
                        return self.session_push_msg(msg);
                    }
                    if msg.size() == 0 {
                        self.state = ReqSessionState::Body;
                        return self.session_push_msg(msg);
                    }
                }
            },
            ReqSessionState::RequestId => {
                if msg.has_more() && msg.size() == 0 {
                    self.state = ReqSessionState::Body;
                    return self.session_push_msg(msg);
                }
            },
            ReqSessionState::Body => {
                if msg.has_more() {
                    return self.session_push_msg(msg);
                }
                self.state = ReqSessionState::Bottom;
                return self.session_push_msg(msg);
            },
        }
        Err(EFAULT)
    }

    pub fn reset(&mut self)
        ensures
            final(self).spec_state() == ReqSessionState::Bottom,
    {
        self.state = ReqSessionState::Bottom;
    }

    /// Hands a frame to the session underneath, which takes it.
    fn session_push_msg(&self, msg: &Msg) -> (r: Result<(), i32>)
        ensures
            r is Ok,
    {
        Ok(())
    }
}

} // verus!
