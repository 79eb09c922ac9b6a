use vstd::prelude::*;

verus! {

pub const ZMQ_SUB: i32 = 2;
pub const ZMQ_SUBSCRIBE: i32 = 6;
pub const ZMQ_UNSUBSCRIBE: i32 = 7;

/// Invalid argument.
pub const EINVAL: i32 = 22;

/// Operation not supported.
pub const ENOTSUP: i32 = 95;

/// The context a socket belongs to.
pub struct Context;

/// A subscription message: whether it subscribes or cancels, and the
/// topic.
pub struct Message {
    subscribe: bool,
    topic: Vec<u8>,
}

impl Message {
    pub closed spec fn spec_subscribe(&self) -> bool {
        self.subscribe
    }

    pub closed spec fn spec_topic(&self) -> Seq<u8> {
        self.topic@
    }

    pub fn new() -> (m: Self)
        ensures
            !m.spec_subscribe(),
            m.spec_topic() == Seq::<u8>::empty(),
    {
        Message { subscribe: false, topic: Vec::new() }
    }

    fn init_subscribe(&mut self, data: &[u8]) -> (rc: i32)
        ensures
            rc == 0,
            final(self).spec_subscribe(),
            final(self).spec_topic() == data@,
    {
        self.subscribe = true;
        self.topic = vstd::slice::slice_to_vec(data);
        0
    }

    fn init_cancel(&mut self, data: &[u8]) -> (rc: i32)
        ensures
            rc == 0,
            !final(self).spec_subscribe(),
            final(self).spec_topic() == data@,
    {
        self.subscribe = false;
        self.topic = vstd::slice::slice_to_vec(data);
        0
    }
}

/// The XSUB layer underneath SUB.
pub trait XSub {
    fn xsend(&mut self, msg: &mut Message) -> i32;

    fn xhas_out(&self) -> bool;
}

/// The socket's type and whether it filters by topic.
#[derive(Debug)]
pub struct Options {
    pub socket_type: i32,
    pub filter: bool,
}

/// A SUB socket: receives what it subscribed to; it sends nothing.
pub struct Sub {
    options: Options,
}

impl Sub {
    pub closed spec fn spec_options(&self) -> (i32, bool) {
        (self.options.socket_type, self.options.filter)
    }

    pub fn new(parent: &Context, tid: u32, sid: i32) -> (s: Self)
        ensures
            s.spec_options() == (ZMQ_SUB, true),
    {
        Sub { options: Options { socket_type: ZMQ_SUB, filter: true } }
    }

    /// Subscribes to, or cancels, the topic `optval`; any other option is
    /// refused with -1.  The subscription goes down through the XSUB layer,
    /// which takes no sends, so that too gives -1.
    pub fn xsetsockopt(&mut self, option: i32, optval: &[u8]) -> (rc: i32)
        ensures
            rc == -1,
            final(self).spec_options() == old(self).spec_options(),
    {
        if option != ZMQ_SUBSCRIBE && option != ZMQ_UNSUBSCRIBE {
            return -1;
        }
        let mut msg = Message::new();
        let rc = if option == ZMQ_SUBSCRIBE {
            msg.init_subscribe(optval)
        } else {
            msg.init_cancel(optval)
        };
        if rc != 0 {
            return rc;
        }
        self.xsend(&mut msg)
    }
}

impl XSub for Sub {
    /// A SUB socket sends nothing.
    fn xsend(&mut self, _msg: &mut Message) -> (rc: i32)
        ensures
            rc == -1,
            final(self).spec_options() == old(self).spec_options(),
    {
        -1
    }

    fn xhas_out(&self) -> (r: bool)
        ensures
            !r,
    {
        false
    }
}

} // verus!
