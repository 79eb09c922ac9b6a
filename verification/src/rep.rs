use vstd::prelude::*;

verus! {

/// Operation not allowed in the socket's current state.
pub const EFSM: i32 = 156384763;

/// Flag bit: more parts follow.
pub const MSG_MORE: u32 = 1;

/// The context a socket belongs to.
#[derive(Clone, Copy)]
pub struct Context;

/// A message: flag bits and body.
pub struct Msg {
    flags: u32,
    data: Vec<u8>,
}

impl Msg {
    pub const MORE: u32 = MSG_MORE;

    pub closed spec fn flag_bits(&self) -> u32 {
        self.flags
    }

    pub closed spec fn body(&self) -> Seq<u8> {
        self.data@
    }

    pub open spec fn has_more_spec(&self) -> bool {
        self.flag_bits() & 1 != 0
    }

    pub fn new() -> (m: Self)
        ensures
            m.flag_bits() == 0,
            m.body() == Seq::<u8>::empty(),
    {
        Msg { flags: 0, data: Vec::new() }
    }

    /// A message with these flag bits and this body.
    pub fn from_parts(flags: u32, data: Vec<u8>) -> (m: Self)
        ensures
            m.flag_bits() == flags,
            m.body() == data@,
    {
        Msg { flags, data }
    }

    pub fn flags(&self) -> (f: u32)
        ensures
            f == self.flag_bits(),
    {
        self.flags
    }

    pub fn size(&self) -> (n: usize)
        ensures
            n == self.body().len(),
    {
        self.data.len()
    }
}

/// The ROUTER layer underneath REP.  It accepts every send and leaves every
/// message it is asked to fill unchanged.
struct Router {}

impl Router {
    fn new(_parent: &Context, _tid: u32, _sid: i32) -> Self {
        Router {}
    }

    fn xsend(&mut self, _msg: &mut Msg) -> (r: Result<(), i32>)
        ensures
            r is Ok,
            *final(_msg) == *old(_msg),
    {
        Ok(())
    }

    fn xrecv(&mut self, _msg: &mut Msg) -> (r: Result<(), i32>)
        ensures
            r is Ok,
            *final(_msg) == *old(_msg),
    {
        Ok(())
    }

    fn rollback(&mut self) -> (r: Result<(), i32>)
        ensures
            r is Ok,
    {
        Ok(())
    }

    fn xhas_in(&self) -> (r: bool)
        ensures
            !r,
    {
        false
    }

    fn xhas_out(&self) -> (r: bool)
        ensures
            !r,
    {
        false
    }
}

/// A REP socket: receives a request, then sends exactly one reply.
pub struct Rep {
    router: Router,
    sending_reply: bool,
    request_begins: bool,
}

impl Rep {
    /// The socket owes a reply.
    pub closed spec fn is_sending_reply(&self) -> bool {
        self.sending_reply
    }

    /// The next received part starts a new request (its routing envelope).
    pub closed spec fn is_request_beginning(&self) -> bool {
        self.request_begins
    }

    pub fn new(parent: &Context, tid: u32, sid: i32) -> (r: Self)
        ensures
            !r.is_sending_reply(),
            r.is_request_beginning(),
    {
        Rep { router: Router::new(parent, tid, sid), sending_reply: false, request_begins: true }
    }

    /// Sends a part of the reply; the last part ends the reply.  Without a
    /// pending request this is EFSM.
    pub fn xsend(&mut self, msg: &mut Msg) -> (r: Result<(), i32>)
        ensures
            !old(self).is_sending_reply() ==> r == Err::<(), i32>(EFSM) && final(self).is_sending_reply()
                == old(self).is_sending_reply(),
            old(self).is_sending_reply() ==> r is Ok && final(self).is_sending_reply()
                == old(msg).has_more_spec(),
            final(self).is_request_beginning() == old(self).is_request_beginning(),
            *final(msg) == *old(msg),
    {
        if !self.sending_reply {
            return Err(EFSM);
        }
        let more = (msg.flags() & MSG_MORE) != 0;
        let rc = self.router.xsend(msg);
        if rc.is_err() {
            return rc;
        }
        if !more {
            self.sending_reply = false;
        }
        Ok(())
    }

    /// Receives a part of the request.  At the start of a request the routing
    /// envelope is passed back down until its empty delimiter part; the router
    /// underneath hands the message over unchanged, so a request can begin only
    /// with such a delimiter part (any other part would be passed back for ever).
    pub fn xrecv(&mut self, msg: &mut Msg) -> (r: Result<(), i32>)
        requires
            !old(self).is_sending_reply() && old(self).is_request_beginning() ==> old(msg).has_more_spec()
                && old(msg).body().len() == 0,
        ensures
            old(self).is_sending_reply() ==> r == Err::<(), i32>(EFSM) && final(self).is_sending_reply()
                && (final(self).is_request_beginning() == old(self).is_request_beginning()),
            !old(self).is_sending_reply() ==> r is Ok,
            !old(self).is_sending_reply() ==> (final(self).is_sending_reply() == !old(msg).has_more_spec()),
            !old(self).is_sending_reply() ==> (final(self).is_request_beginning() == !old(msg).has_more_spec()),
            *final(msg) == *old(msg),
    {
        if self.sending_reply {
            return Err(EFSM);
        }
        if self.request_begins {
            loop
                invariant
                    *msg == *old(msg),
                    msg.has_more_spec() && msg.body().len() == 0,
                    self.sending_reply == old(self).sending_reply,
                ensures
                    self.sending_reply == old(self).sending_reply,
                    *msg == *old(msg),
                    msg.has_more_spec(),
                decreases 1int,
            {
                let rc = self.router.xrecv(msg);
                if rc.is_err() {
                    return rc;
                }
                if (msg.flags() & MSG_MORE) != 0 {
                    let bottom = msg.size() == 0;
                    let rc = self.router.xsend(msg);
                    if rc.is_err() {
                        return rc;
                    }
                    if bottom {
                        break;
                    }
                } else {
                    let rc = self.router.rollback();
                    if rc.is_err() {
                        return rc;
                    }
                }
            }
            self.request_begins = false;
        }
        let rc = self.router.xrecv(msg);
        if rc.is_err() {
            return rc;
        }
        if (msg.flags() & MSG_MORE) == 0 {
            self.sending_reply = true;
            self.request_begins = true;
        }
        Ok(())
    }

    /// A REP socket reads only while it owes no reply, and the router
    /// underneath has nothing to read.
    pub fn xhas_in(&self) -> (r: bool)
        ensures
            !r,
    {
        if self.sending_reply {
            return false;
        }
        self.router.xhas_in()
    }

    /// A REP socket writes only while it owes a reply, and the router
    /// underneath takes nothing.
    pub fn xhas_out(&self) -> (r: bool)
        ensures
            !r,
    {
        if !self.sending_reply {
            return false;
        }
        self.router.xhas_out()
    }
}

} // verus!
