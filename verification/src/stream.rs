use crate::router::generated_routing_id;
use vstd::prelude::*;

verus! {

/// The socket type of a STREAM socket.
pub const ZMQ_STREAM: i32 = 11;
/// Nothing to send to yet.
pub const EAGAIN: i32 = 11;
/// No peer has this routing id.
pub const EHOSTUNREACH: i32 = 113;

/// The context a socket is made in.
pub struct Context;

/// A message: its bytes and whether more parts follow.
pub struct Msg {
    pub data: Vec<u8>,
    pub more: bool,
}

impl Msg {
    pub fn new() -> (m: Self)
        ensures
            m.data@ == Seq::<u8>::empty(),
            !m.more,
    {
        Msg { data: Vec::new(), more: false }
    }

    pub fn has_more(&self) -> (r: bool)
        ensures
            r == self.more,
    {
        self.more
    }
}

/// A pipe to a peer: its identity, the routing id the socket gave it,
/// whether it takes writes, what was written to it, and whether it was
/// terminated.
pub struct Pipe {
    pub id: u64,
    pub routing_id: Vec<u8>,
    pub writable: bool,
    pub written: Vec<Vec<u8>>,
    pub terminated: bool,
}

impl Pipe {
    pub fn new(id: u64, writable: bool) -> (p: Self)
        ensures
            p.id == id,
            p.routing_id@ == Seq::<u8>::empty(),
            p.writable == writable,
            p.written@ == Seq::<Vec<u8>>::empty(),
            !p.terminated,
    {
        Pipe { id, routing_id: Vec::new(), writable, written: Vec::new(), terminated: false }
    }
}

/// The options a STREAM socket sets and reads.
pub struct Options {
    pub typ: i32,
    pub raw_socket: bool,
    pub raw_notify: bool,
    /// The routing id the next locally initiated peer gets, where set.
    pub connect_routing_id: Vec<u8>,
}

/// The index of the first pipe with routing id `id`, or the count.
pub open spec fn find_route(pipes: Seq<Pipe>, id: Seq<u8>, i: int) -> int
    decreases pipes.len() - i,
{
    if 0 <= i < pipes.len() && pipes[i].routing_id@ != id {
        find_route(pipes, id, i + 1)
    } else {
        i
    }
}

/// A STREAM socket: talks raw TCP to its peers, each named by a routing id
/// that comes first in each message sent to it.
pub struct Stream {
    /// The pipes, in the order they were attached.
    pub pipes: Vec<Pipe>,
    /// The pipe the message being sent goes to, by index.
    pub current_out: Option<usize>,
    /// Whether the next part sent is a body (the routing id came first).
    pub more_out: bool,
    pub next_integral_routing_id: u32,
    pub options: Options,
}

impl Stream {
    /// A STREAM socket: raw, its routing ids counted up from a random
    /// number.
    pub fn new(_parent: &mut Context, _tid: u32, _sid: i32) -> (s: Self)
        ensures
            s.pipes@.len() == 0,
            s.current_out is None,
            !s.more_out,
            s.options.typ == ZMQ_STREAM,
            s.options.raw_socket,
            !s.options.raw_notify,
            s.options.connect_routing_id@ == Seq::<u8>::empty(),
    {
        Stream {
            pipes: Vec::new(),
            current_out: None,
            more_out: false,
            next_integral_routing_id: crate::random::generate_random(),
            options: Options {
                typ: ZMQ_STREAM,
                raw_socket: true,
                raw_notify: false,
                connect_routing_id: Vec::new(),
            },
        }
    }

    /// Takes on a pipe, naming its peer: by the connect routing id for a
    /// locally initiated pipe when one is set (it is then used up), else
    /// by a routing id made from the counter, which moves on.
    pub fn attach_pipe(&mut self, pipe: Pipe, _subscribe_to_all: bool, locally_initiated: bool)
        requires
            old(self).current_out matches Some(i) ==> i < old(self).pipes@.len(),
        ensures
            final(self).pipes@.len() == old(self).pipes@.len() + 1,
            forall|i: int| 0 <= i < old(self).pipes@.len() ==> final(self).pipes@[i] == old(self).pipes@[i],
            final(self).pipes@.last().id == pipe.id,
            final(self).pipes@.last().writable == pipe.writable,
            final(self).pipes@.last().written == pipe.written,
            final(self).pipes@.last().terminated == pipe.terminated,
            final(self).current_out == old(self).current_out,
            final(self).more_out == old(self).more_out,
            locally_initiated && old(self).options.connect_routing_id@.len() > 0 ==> {
                &&& final(self).pipes@.last().routing_id@ == old(self).options.connect_routing_id@
                &&& final(self).options.connect_routing_id@ == Seq::<u8>::empty()
                &&& final(self).next_integral_routing_id == old(self).next_integral_routing_id
            },
            !(locally_initiated && old(self).options.connect_routing_id@.len() > 0) ==> {
                &&& final(self).pipes@.last().routing_id@ == generated_routing_id(
                    old(self).next_integral_routing_id,
                )
                &&& final(self).options.connect_routing_id@ == old(self).options.connect_routing_id@
                &&& final(self).next_integral_routing_id == old(
                    self,
                ).next_integral_routing_id.wrapping_add(1)
            },
            final(self).current_out matches Some(i) ==> i < final(self).pipes@.len(),
    {
        let mut pipe = pipe;
        let routing_id: Vec<u8> = if locally_initiated && self.options.connect_routing_id.len() > 0 {
            let mut taken: Vec<u8> = Vec::new();
            std::mem::swap(&mut taken, &mut self.options.connect_routing_id);
            taken
        } else {
            let mut buffer: Vec<u8> = Vec::new();
            buffer.push(0u8);
            crate::mechanism::put_u32_be(&mut buffer, self.next_integral_routing_id);
            assert(buffer@ =~= generated_routing_id(self.next_integral_routing_id));
            self.next_integral_routing_id = self.next_integral_routing_id.wrapping_add(1);
            buffer
        };
        pipe.routing_id = routing_id;
        self.pipes.push(pipe);
    }

    fn lookup_out_pipe(&self, id: &[u8]) -> (r: Option<usize>)
        ensures
            match r {
                Some(i) => i == find_route(self.pipes@, id@, 0) && i < self.pipes@.len(),
                None => find_route(self.pipes@, id@, 0) == self.pipes@.len(),
            },
    {
        let mut i: usize = 0;
        while i < self.pipes.len() && !crate::mechanism::bytes_equal(self.pipes[i].routing_id.as_slice(), id)
            invariant
                i <= self.pipes@.len(),
                find_route(self.pipes@, id@, 0) == find_route(self.pipes@, id@, i as int),
            decreases self.pipes@.len() - i,
        {
            i += 1;
        }
        if i < self.pipes.len() {
            Some(i)
        } else {
            None
        }
    }

    /// Sends one part. The first part of a message is the routing id of
    /// the peer it goes to (a message of one part goes nowhere); the next
    /// is the body, written to that peer, or, empty, the signal to
    /// disconnect it. `msg` is left empty.
    pub fn send(&mut self, msg: &mut Msg) -> (r: Result<(), i32>)
        requires
            old(self).current_out matches Some(i) ==> i < old(self).pipes@.len(),
        ensures
            final(self).current_out matches Some(i) ==> i < final(self).pipes@.len(),
            final(self).pipes@.len() == old(self).pipes@.len(),
            final(self).next_integral_routing_id == old(self).next_integral_routing_id,
            ({
                let pipes = old(self).pipes@;
                if !old(self).more_out {
                    let k = find_route(pipes, old(msg).data@, 0);
                    &&& (if old(msg).more && k == pipes.len() {
                        &&& r == Err::<(), i32>(EHOSTUNREACH)
                        &&& final(self).current_out == old(self).current_out
                        &&& !final(self).more_out
                    } else if old(msg).more && !pipes[k].writable {
                        &&& r == Err::<(), i32>(EAGAIN)
                        &&& final(self).current_out is None
                        &&& !final(self).more_out
                    } else {
                        &&& r is Ok
                        &&& final(self).more_out
                        &&& final(self).current_out == if old(msg).more {
                            Some(k as usize)
                        } else {
                            old(self).current_out
                        }
                    })
                    &&& forall|i: int| 0 <= i < pipes.len() ==> final(self).pipes@[i] == pipes[i]
                } else {
                    &&& r is Ok
                    &&& !final(self).more_out
                    &&& final(self).current_out is None
                    &&& match old(self).current_out {
                        None => forall|i: int| 0 <= i < pipes.len() ==> final(self).pipes@[i] == pipes[i],
                        Some(c) => {
                            &&& forall|i: int| 0 <= i < pipes.len() && i != c ==> final(self).pipes@[i] == pipes[i]
                            &&& final(self).pipes@[c as int].routing_id == pipes[c as int].routing_id
                            &&& final(self).pipes@[c as int].id == pipes[c as int].id
                            &&& final(self).pipes@[c as int].writable == pipes[c as int].writable
                            &&& if old(msg).data@.len() == 0 {
                                final(self).pipes@[c as int].terminated
                                    && final(self).pipes@[c as int].written == pipes[c as int].written
                            } else {
                                final(self).pipes@[c as int].terminated == pipes[c as int].terminated
                                    && final(self).pipes@[c as int].written@ == if pipes[c as int].writable {
                                    pipes[c as int].written@.push(old(msg).data)
                                } else {
                                    pipes[c as int].written@
                                }
                            }
                        },
                    }
                }
            }),
            r is Ok ==> final(msg).data@ == Seq::<u8>::empty() && !final(msg).more,
    {
        if !self.more_out {
            if msg.more {
                match self.lookup_out_pipe(msg.data.as_slice()) {
                    Some(i) => {
                        self.current_out = Some(i);
                        if !self.pipes[i].writable {
                            self.current_out = None;
                            return Err(EAGAIN);
                        }
                    },
                    None => {
                        return Err(EHOSTUNREACH);
                    },
                }
            }
            self.more_out = true;
            msg.data = Vec::new();
            msg.more = false;
            return Ok(());
        }
        msg.more = false;
        self.more_out = false;
        match self.current_out {
            Some(c) => {
                let mut data: Vec<u8> = Vec::new();
                std::mem::swap(&mut data, &mut msg.data);
                if data.len() == 0 {
                    self.pipes[c].terminated = true;
                    self.current_out = None;
                    return Ok(());
                }
                if self.pipes[c].writable {
                    self.pipes[c].written.push(data);
                }
                self.current_out = None;
            },
            None => {
                msg.data = Vec::new();
            },
        }
        Ok(())
    }
}

} // verus!
