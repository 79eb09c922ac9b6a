use vstd::prelude::*;

verus! {

/// The socket type of a PEER socket.
pub const ZMQ_PEER: i32 = 1;

/// The context a socket is made in.
pub struct Context;

/// The options a PEER socket sets.
#[derive(Debug, Clone, Copy, PartialEq, Eq, Structural)]
pub struct Options {
    pub type_: i32,
    pub can_send_hello_msg: bool,
    pub can_recv_disconnect_msg: bool,
    pub can_recv_hiccup_msg: bool,
    pub immediate: i32,
}

/// A pipe to a peer: the routing id the SERVER side gave it.
pub struct Pipe {
    pub server_socket_routing_id: u32,
}

impl Pipe {
    pub fn get_server_socket_routing_id(&self) -> (r: u32)
        ensures
            r == self.server_socket_routing_id,
    {
        self.server_socket_routing_id
    }
}

/// A PEER socket: a SERVER that can also connect, and tells the caller the
/// routing id of the peer it last connected to.
pub struct Peer {
    pub options: Options,
    pub peer_last_routing_id: u32,
}

impl Peer {
    pub fn new(_parent: &mut Context, _tid: u32, _sid: i32) -> (p: Self)
        ensures
            p.options == (Options {
                type_: ZMQ_PEER,
                can_send_hello_msg: true,
                can_recv_disconnect_msg: true,
                can_recv_hiccup_msg: true,
                immediate: 0,
            }),
            p.peer_last_routing_id == 0,
    {
        Peer {
            options: Options {
                type_: ZMQ_PEER,
                can_send_hello_msg: true,
                can_recv_disconnect_msg: true,
                can_recv_hiccup_msg: true,
                immediate: 0,
            },
            peer_last_routing_id: 0,
        }
    }

    /// Connects to `endpoint_uri` and returns the routing id of the peer
    /// last attached; 0 where `immediate` is on, which connecting to a peer
    /// cannot work with.
    pub fn connect_peer(&mut self, endpoint_uri: &str) -> (r: u32)
        ensures
            old(self).options.immediate == 1 ==> r == 0,
            old(self).options.immediate != 1 ==> r == old(self).peer_last_routing_id,
            *final(self) == *old(self),
    {
        if self.options.immediate == 1 {
            return 0;
        }
        if self.connect_internal(endpoint_uri).is_err() {
            return 0;
        }
        self.peer_last_routing_id
    }

    /// Attaches `pipe` as a SERVER does and remembers its routing id.
    pub fn attach_pipe(&mut self, pipe: &mut Pipe, _subscribe_to_all: bool, _locally_initiated: bool)
        ensures
            final(self).peer_last_routing_id == old(pipe).server_socket_routing_id,
            final(self).options == old(self).options,
            final(pipe).server_socket_routing_id == old(pipe).server_socket_routing_id,
    {
        self.server_attach_pipe(pipe);
        self.peer_last_routing_id = pipe.get_server_socket_routing_id();
    }

    /// Starts connecting to `endpoint_uri`; the connection itself is the
    /// session's.
    fn connect_internal(&self, _endpoint_uri: &str) -> (r: Result<(), ()>)
        ensures
            r is Ok,
    {
        Ok(())
    }

    fn server_attach_pipe(&mut self, _pipe: &mut Pipe)
        ensures
            *final(self) == *old(self),
            final(_pipe).server_socket_routing_id == old(_pipe).server_socket_routing_id,
    {
    }
}

} // verus!
