use vstd::prelude::*;

verus! {

pub const ZMQ_PAIR: i32 = 0;
pub const ZMQ_PUB: i32 = 1;
pub const ZMQ_SUB: i32 = 2;
pub const ZMQ_REQ: i32 = 3;
pub const ZMQ_REP: i32 = 4;
pub const ZMQ_DEALER: i32 = 5;
pub const ZMQ_ROUTER: i32 = 6;
pub const ZMQ_PULL: i32 = 7;
pub const ZMQ_PUSH: i32 = 8;
pub const ZMQ_XPUB: i32 = 9;
pub const ZMQ_XSUB: i32 = 10;
pub const ZMQ_STREAM: i32 = 11;
pub const ZMQ_SERVER: i32 = 12;
pub const ZMQ_CLIENT: i32 = 13;
pub const ZMQ_RADIO: i32 = 14;
pub const ZMQ_DISH: i32 = 15;
pub const ZMQ_GATHER: i32 = 16;
pub const ZMQ_SCATTER: i32 = 17;
pub const ZMQ_DGRAM: i32 = 18;
pub const ZMQ_PEER: i32 = 19;
pub const ZMQ_CHANNEL: i32 = 20;

/// The I/O thread a session runs on.
pub trait IOThread {}

/// The socket a session serves.
pub trait SocketBase {}

/// A pipe between a session and its socket.
pub trait Pipe {}

/// Timers an I/O object can set.
pub trait IOObject {
    fn add_timer(&mut self, timeout: i32, id: i32);

    fn cancel_timer(&mut self, id: i32);
}

/// Notifications a pipe gives to the object it feeds.
pub trait PipeEvents {
    fn read_activated(&mut self, pipe: &dyn Pipe);

    fn write_activated(&mut self, pipe: &dyn Pipe);

    fn hiccuped(&mut self, pipe: &dyn Pipe);

    fn pipe_terminated(&mut self, pipe: &dyn Pipe);
}

/// Settings a session is made with.
#[derive(Clone)]
pub struct Options {
    pub mechanism: i32,
    pub zap_domain: String,
    pub type_: i32,
    pub raw_socket: bool,
    pub immediate: i32,
    pub reconnect_ivl: i32,
    pub affinity: u64,
    pub can_send_hello_msg: bool,
    pub hello_msg: Vec<u8>,
    pub can_recv_disconnect_msg: bool,
    pub disconnect_msg: Vec<u8>,
    pub can_recv_hiccup_msg: bool,
    pub hiccup_msg: Vec<u8>,
    pub rcvhwm: i32,
    pub sndhwm: i32,
}

/// The address a session connects to.
pub struct Address {}

/// The local and remote endpoint of a connection.
#[derive(Clone)]
pub struct EndpointUriPair {}

/// Why an engine stopped.
#[derive(Clone, Copy, PartialEq, Eq, Debug)]
pub enum ErrorReason {
    ConnectionError,
    TimeoutError,
    ProtocolError,
}

/// A message: flag bits and body.
pub struct Msg {
    flags: i32,
    data: Vec<u8>,
}

impl Msg {
    pub closed spec fn flag_bits(&self) -> i32 {
        self.flags
    }

    pub closed spec fn body(&self) -> Seq<u8> {
        self.data@
    }

    pub fn new() -> (m: Self)
        ensures
            m.flag_bits() == 0,
            m.body() == Seq::<u8>::empty(),
    {
        Msg { flags: 0, data: Vec::new() }
    }

    /// Makes the message empty with no flags.
    pub fn init(&mut self) -> (rc: i32)
        ensures
            rc == 0,
            final(self).flag_bits() == 0,
            final(self).body() == Seq::<u8>::empty(),
    {
        self.flags = 0;
        self.data.clear();
        0
    }

    /// Replaces the body by a copy of `data`; `size` is not consulted.
    pub fn init_buffer(&mut self, data: &[u8], size: usize) -> (rc: i32)
        ensures
            rc == 0,
            final(self).body() == data@,
            final(self).flag_bits() == old(self).flag_bits(),
    {
        self.data = vstd::slice::slice_to_vec(data);
        0
    }

    pub fn flags(&self) -> (f: i32)
        ensures
            f == self.flag_bits(),
    {
        self.flags
    }

    pub fn set_flags(&mut self, flags: i32)
        ensures
            final(self).flag_bits() == flags,
            final(self).body() == old(self).body(),
    {
        self.flags = flags;
    }

    /// A session treats no message as a subscription.
    pub fn is_subscribe(&self) -> (r: bool)
        ensures
            !r,
    {
        false
    }

    /// A session treats no message as a cancellation.
    pub fn is_cancel(&self) -> (r: bool)
        ensures
            !r,
    {
        false
    }

    pub fn close(&mut self) -> (rc: i32)
        ensures
            rc == 0,
            final(self).body() == Seq::<u8>::empty(),
            final(self).flag_bits() == old(self).flag_bits(),
    {
        self.data.clear();
        0
    }
}

} // verus!
