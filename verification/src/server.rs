use crate::random::generate_random;
use std::collections::HashMap;
use std::collections::VecDeque;
use vstd::prelude::*;

verus! {

/// Invalid argument: SERVER sends single-part messages only.
pub const EINVAL: i32 = 22;

/// Resource temporarily unavailable.
pub const EAGAIN: i32 = 11;

/// No pipe carries the routing id the message names.
pub const EHOSTUNREACH: i32 = 113;

/// The context a socket belongs to.
pub struct Context;

/// A pipe to one peer: the routing id the server gave it, whether it has
/// room for another message, and how many messages went down it.
pub struct Pipe {
    routing_id: u32,
    writable: bool,
    written: usize,
}

impl Pipe {
    pub closed spec fn spec_routing_id(&self) -> u32 {
        self.routing_id
    }

    pub closed spec fn spec_writable(&self) -> bool {
        self.writable
    }

    pub closed spec fn spec_written(&self) -> nat {
        self.written as nat
    }

    pub fn new(writable: bool) -> (p: Self)
        ensures
            p.spec_routing_id() == 0,
            p.spec_writable() == writable,
            p.spec_written() == 0,
    {
        Pipe { routing_id: 0, writable, written: 0 }
    }

    fn set_server_socket_routing_id(&mut self, routing_id: u32)
        ensures
            final(self).spec_routing_id() == routing_id,
            final(self).spec_writable() == old(self).spec_writable(),
            final(self).spec_written() == old(self).spec_written(),
    {
        self.routing_id = routing_id;
    }

    pub(crate) fn routing_id(&self) -> (r: u32)
        ensures
            r == self.spec_routing_id(),
    {
        self.routing_id
    }

    fn check_write(&self) -> (r: bool)
        ensures
            r == self.spec_writable(),
    {
        self.writable
    }

    /// Queues the message; returns whether the pipe took it (it takes it
    /// unless its count is full).
    fn write(&mut self, _msg: &Message) -> (r: bool)
        ensures
            r == (old(self).spec_written() < usize::MAX),
            final(self).spec_written() == if r {
                old(self).spec_written() + 1
            } else {
                old(self).spec_written()
            },
            final(self).spec_routing_id() == old(self).spec_routing_id(),
            final(self).spec_writable() == old(self).spec_writable(),
    {
        if self.written < usize::MAX {
            self.written = self.written + 1;
            true
        } else {
            false
        }
    }

    fn flush(&mut self)
        ensures
            *final(self) == *old(self),
    {
    }
}

/// A frame: its body, whether more frames follow, and a routing id.
pub struct Message {
    data: Vec<u8>,
    more: bool,
    routing_id: u32,
}

impl Message {
    pub closed spec fn body(&self) -> Seq<u8> {
        self.data@
    }

    pub closed spec fn spec_more(&self) -> bool {
        self.more
    }

    pub closed spec fn spec_routing_id(&self) -> u32 {
        self.routing_id
    }

    pub fn new(data: Vec<u8>, more: bool, routing_id: u32) -> (m: Self)
        ensures
            m.body() == data@,
            m.spec_more() == more,
            m.spec_routing_id() == routing_id,
    {
        Message { data, more, routing_id }
    }

    pub fn has_more(&self) -> (r: bool)
        ensures
            r == self.spec_more(),
    {
        self.more
    }

    pub fn get_routing_id(&self) -> (r: u32)
        ensures
            r == self.spec_routing_id(),
    {
        self.routing_id
    }

    pub fn set_routing_id(&mut self, routing_id: u32)
        ensures
            final(self).spec_routing_id() == routing_id,
            final(self).body() == old(self).body(),
            final(self).spec_more() == old(self).spec_more(),
    {
        self.routing_id = routing_id;
    }

    pub fn reset_routing_id(&mut self) -> (r: Result<(), i32>)
        ensures
            r is Ok,
            final(self).spec_routing_id() == 0,
            final(self).body() == old(self).body(),
            final(self).spec_more() == old(self).spec_more(),
    {
        self.routing_id = 0;
        Ok(())
    }

    pub fn close(&mut self) -> (r: Result<(), i32>)
        ensures
            r is Ok,
            final(self).body() == Seq::<u8>::empty(),
            final(self).spec_more() == old(self).spec_more(),
            final(self).spec_routing_id() == old(self).spec_routing_id(),
    {
        self.data.clear();
        Ok(())
    }

    /// Makes the message empty, single-part, with no routing id.
    pub fn init(&mut self) -> (r: Result<(), i32>)
        ensures
            r is Ok,
            final(self).body() == Seq::<u8>::empty(),
            !final(self).spec_more(),
            final(self).spec_routing_id() == 0,
    {
        self.data = Vec::new();
        self.more = false;
        self.routing_id = 0;
        Ok(())
    }
}

/// Inbound frames, each with the routing id of the pipe it came from, in
/// the order they are to be read.
pub struct FairQueue {
    inbound: VecDeque<(u32, Message)>,
    attached: Vec<u32>,
}

impl FairQueue {
    pub closed spec fn frames(&self) -> Seq<(u32, Message)> {
        self.inbound@
    }

    /// The routing ids of the pipes read from, in the order they came.
    pub closed spec fn pipes(&self) -> Seq<u32> {
        self.attached@
    }

    pub fn new() -> (q: Self)
        ensures
            q.frames() == Seq::<(u32, Message)>::empty(),
            q.pipes() == Seq::<u32>::empty(),
    {
        FairQueue { inbound: VecDeque::new(), attached: Vec::new() }
    }

    /// Starts reading from the pipe with this routing id.
    pub(crate) fn attach(&mut self, routing_id: u32)
        ensures
            final(self).frames() == old(self).frames(),
            final(self).pipes() == old(self).pipes().push(routing_id),
    {
        self.attached.push(routing_id);
    }

    /// A frame arrives from the pipe with routing id `routing_id`.
    pub fn push(&mut self, routing_id: u32, msg: Message)
        ensures
            final(self).frames() == old(self).frames().push((routing_id, msg)),
    {
        self.inbound.push_back((routing_id, msg));
    }

    /// Moves the next frame into `msg` and returns the routing id of its
    /// pipe; `EAGAIN` when there is none.
    pub(crate) fn recvpipe(&mut self, msg: &mut Message) -> (r: Result<u32, i32>)
        ensures
            old(self).frames().len() == 0 ==> r == Err::<u32, i32>(EAGAIN) && *final(msg) == *old(msg) && final(self).frames() == old(self).frames(),
            old(self).frames().len() > 0 ==> r == Ok::<u32, i32>(old(self).frames()[0].0)
                && *final(msg) == old(self).frames()[0].1 && final(self).frames() == old(self).frames().drop_first(),
    {
        match self.inbound.pop_front() {
            Some((routing_id, frame)) => {
                *msg = frame;
                Ok(routing_id)
            },
            None => Err(EAGAIN),
        }
    }

    pub(crate) fn has_in(&self) -> (r: bool)
        ensures
            r == (self.frames().len() > 0),
    {
        self.inbound.len() > 0
    }
}

/// The index of the frame that a SERVER socket delivers when it reads `q`
/// from index `i` on, `dropping` the rest of a multi-part message: the first
/// single-part message; the frames of multi-part messages are skipped.
pub open spec fn deliverable(q: Seq<(u32, Message)>, i: int, dropping: bool) -> Option<int>
    decreases q.len() - i,
{
    if i < 0 || i >= q.len() {
        None
    } else if q[i].1.spec_more() {
        deliverable(q, i + 1, true)
    } else if dropping {
        deliverable(q, i + 1, false)
    } else {
        Some(i)
    }
}

proof fn lemma_deliverable_bounds(q: Seq<(u32, Message)>, i: int, dropping: bool)
    requires
        0 <= i,
    ensures
        deliverable(q, i, dropping) matches Some(k) ==> i <= k < q.len() && !q[k].1.spec_more(),
    decreases q.len() - i,
{
    if i < q.len() {
        lemma_deliverable_bounds(q, i + 1, true);
        lemma_deliverable_bounds(q, i + 1, false);
    }
}

/// An outbound pipe and whether it still has room.
struct OutPipe {
    pipe: Box<Pipe>,
    active: bool,
}

/// A SERVER socket: replies go to the peer whose routing id the message
/// carries; each received message carries the routing id of its sender.
pub struct Server {
    fq: FairQueue,
    out_pipes: HashMap<u32, OutPipe>,
    next_routing_id: u32,
}

impl Server {
    /// The routing ids of the attached peers.
    pub closed spec fn routing_ids(&self) -> Set<u32> {
        self.out_pipes@.dom()
    }

    /// Whether the peer with this routing id still had room at the last send.
    pub closed spec fn is_active(&self, routing_id: u32) -> bool {
        self.out_pipes@[routing_id].active
    }

    /// The pipe of the peer with this routing id.
    pub closed spec fn pipe_of(&self, routing_id: u32) -> Pipe {
        *self.out_pipes@[routing_id].pipe
    }

    /// The routing id the next attached pipe gets.
    pub closed spec fn spec_next_routing_id(&self) -> u32 {
        self.next_routing_id
    }

    /// Frames waiting to be read.
    pub closed spec fn inbound(&self) -> Seq<(u32, Message)> {
        self.fq.frames()
    }

    /// The routing ids of the pipes the fair queue reads from.
    pub closed spec fn fq_pipes(&self) -> Seq<u32> {
        self.fq.pipes()
    }

    pub fn new(parent: &Context, tid: u32, sid: i32) -> (s: Self)
        ensures
            s.routing_ids() == Set::<u32>::empty(),
            s.inbound() == Seq::<(u32, Message)>::empty(),
            s.fq_pipes() == Seq::<u32>::empty(),
    {
        Self { fq: FairQueue::new(), out_pipes: HashMap::new(), next_routing_id: generate_random() }
    }

    /// Gives the pipe the next routing id and starts serving it.  Routing id
    /// zero is handed out at most once, before the counter first wraps.
    pub fn attach_pipe(&mut self, pipe: Box<Pipe>, subscribe_to_all: bool, locally_initiated: bool)
        ensures
            ({
                let id = old(self).spec_next_routing_id();
                &&& final(self).routing_ids() == old(self).routing_ids().insert(id)
                &&& final(self).is_active(id)
                &&& final(self).pipe_of(id).spec_routing_id() == id
                &&& final(self).pipe_of(id).spec_writable() == pipe.spec_writable()
                &&& final(self).pipe_of(id).spec_written() == pipe.spec_written()
                &&& forall|other: u32|
                    other != id && #[trigger] old(self).routing_ids().contains(other) ==> final(self).is_active(other) == old(self).is_active(other) && final(self).pipe_of(other)
                        == old(self).pipe_of(other)
                &&& final(self).spec_next_routing_id() == if id == u32::MAX {
                    1
                } else {
                    (id + 1) as u32
                }
                &&& final(self).spec_next_routing_id() != 0
                &&& final(self).inbound() == old(self).inbound()
                &&& final(self).fq_pipes() == old(self).fq_pipes().push(id)
            }),
    {
        let routing_id = self.next_routing_id;
        self.next_routing_id = self.next_routing_id.wrapping_add(1);
        if self.next_routing_id == 0 {
            self.next_routing_id = 1;
        }
        let mut pipe = pipe;
        pipe.set_server_socket_routing_id(routing_id);
        let outpipe = OutPipe { pipe, active: true };
        self.out_pipes.insert(routing_id, outpipe);
        self.fq.attach(routing_id);
    }

    /// Sends a single-part message to the peer its routing id names.  A
    /// peer without room is marked inactive and the send refused with
    /// `EAGAIN`; otherwise the pipe takes the message and `msg` is left
    /// empty.
    pub fn send(&mut self, msg: &mut Message) -> (r: Result<(), i32>)
        ensures
            ({
                let id = old(msg).spec_routing_id();
                &&& final(self).routing_ids() == old(self).routing_ids()
                &&& final(self).inbound() == old(self).inbound()
                &&& final(self).spec_next_routing_id() == old(self).spec_next_routing_id()
                &&& forall|other: u32|
                    other != id && #[trigger] old(self).routing_ids().contains(other) ==> final(self).is_active(other) == old(self).is_active(other) && final(self).pipe_of(other)
                        == old(self).pipe_of(other)
                &&& if old(msg).spec_more() {
                    r == Err::<(), i32>(EINVAL) && *final(msg) == *old(msg) && final(self).is_active(id) == old(self).is_active(id)
                        && final(self).pipe_of(id) == old(self).pipe_of(id)
                } else if !old(self).routing_ids().contains(id) {
                    r == Err::<(), i32>(EHOSTUNREACH) && *final(msg) == *old(msg)
                } else if !old(self).pipe_of(id).spec_writable() {
                    &&& r == Err::<(), i32>(EAGAIN)
                    &&& *final(msg) == *old(msg)
                    &&& !final(self).is_active(id)
                    &&& final(self).pipe_of(id) == old(self).pipe_of(id)
                } else {
                    &&& r is Ok
                    &&& final(msg).body() == Seq::<u8>::empty()
                    &&& !final(msg).spec_more()
                    &&& final(msg).spec_routing_id() == 0
                    &&& final(self).is_active(id) == old(self).is_active(id)
                    &&& final(self).pipe_of(id).spec_routing_id() == old(self).pipe_of(id).spec_routing_id()
                    &&& final(self).pipe_of(id).spec_writable()
                    &&& final(self).pipe_of(id).spec_written() == if old(self).pipe_of(id).spec_written() < usize::MAX {
                        old(self).pipe_of(id).spec_written() + 1
                    } else {
                        old(self).pipe_of(id).spec_written()
                    }
                }
            }),
    {
        if msg.has_more() {
            return Err(EINVAL);
        }
        let routing_id = msg.get_routing_id();
        match self.out_pipes.remove(&routing_id) {
            None => Err(EHOSTUNREACH),
            Some(outpipe) => {
                let mut outpipe = outpipe;
                if !outpipe.pipe.check_write() {
                    outpipe.active = false;
                    self.out_pipes.insert(routing_id, outpipe);
                    return Err(EAGAIN);
                }
                let _ = msg.reset_routing_id();
                if !outpipe.pipe.write(msg) {
                    let _ = msg.close();
                } else {
                    outpipe.pipe.flush();
                }
                let _ = msg.init();
                self.out_pipes.insert(routing_id, outpipe);
                Ok(())
            },
        }
    }

    /// A frame arrives from the peer with this routing id.
    pub fn push_inbound(&mut self, routing_id: u32, msg: Message)
        ensures
            final(self).inbound() == old(self).inbound().push((routing_id, msg)),
            final(self).routing_ids() == old(self).routing_ids(),
            final(self).spec_next_routing_id() == old(self).spec_next_routing_id(),
    {
        self.fq.push(routing_id, msg);
    }

    /// Receives the next single-part message, with the routing id of the
    /// peer that sent it; the frames of multi-part messages are read and
    /// dropped.  `EAGAIN` when no such message is left, in which case every
    /// waiting frame has been read.
    pub fn recv(&mut self, msg: &mut Message) -> (r: Result<(), i32>)
        ensures
            final(self).routing_ids() == old(self).routing_ids(),
            final(self).spec_next_routing_id() == old(self).spec_next_routing_id(),
            ({
                let q = old(self).inbound();
                match deliverable(q, 0, false) {
                    Some(k) => {
                        &&& r is Ok
                        &&& final(self).inbound() == q.skip(k + 1)
                        &&& final(msg).body() == q[k].1.body()
                        &&& !final(msg).spec_more()
                        &&& final(msg).spec_routing_id() == q[k].0
                    },
                    None => {
                        &&& r == Err::<(), i32>(EAGAIN)
                        &&& final(self).inbound().len() == 0
                        &&& q.len() == 0 ==> *final(msg) == *old(msg)
                        &&& q.len() > 0 ==> *final(msg) == q.last().1
                    },
                }
            }),
    {
        let ghost q = self.fq.frames();
        let ghost mut i: int = 0;
        let ghost mut dropping: bool = false;
        let mut pipe: u32 = 0;
        proof {
            lemma_deliverable_bounds(q, 0, false);
        }
        loop
            invariant_except_break
                deliverable(q, i, dropping) == deliverable(q, 0, false),
            invariant
                0 <= i <= q.len(),
                q == old(self).inbound(),
                self.fq.frames() == q.skip(i),
                !dropping,
                i == 0 ==> *msg == *old(msg),
                i > 0 ==> *msg == q[i - 1].1,
                self.out_pipes == old(self).out_pipes,
                self.next_routing_id == old(self).next_routing_id,
            ensures
                deliverable(q, 0, false) is Some,
                deliverable(q, 0, false) matches Some(k) ==> (i == k + 1 && self.fq.frames() == q.skip(
                    k + 1,
                ) && *msg == q[k].1 && pipe == q[k].0),
                self.out_pipes == old(self).out_pipes,
                self.next_routing_id == old(self).next_routing_id,
            decreases q.len() - i,
        {
            let ghost i_start = i;
            match self.fq.recvpipe(msg) {
                Ok(p) => {
                    assert(q.skip(i).drop_first() =~= q.skip(i + 1));
                    pipe = p;
                    proof { i = i + 1; }
                    if !msg.has_more() {
                        break;
                    }
                    proof {
                        dropping = true;
                    }
                    while msg.has_more()
                        invariant
                            0 < i <= q.len(),
                            i_start < i,
                            q == old(self).inbound(),
                            self.fq.frames() == q.skip(i),
                            deliverable(q, i, dropping) == deliverable(q, 0, false),
                            dropping == msg.spec_more(),
                            *msg == q[i - 1].1,
                            self.out_pipes == old(self).out_pipes,
                            self.next_routing_id == old(self).next_routing_id,
                        decreases q.len() - i,
                    {
                        let r = self.fq.recvpipe(msg);
                        if r.is_err() {
                            assert(q.len() == i);
                            assert(deliverable(q, i, dropping) is None);
                            assert(self.fq.frames().len() == 0);
                            assert(*msg == q.last().1);
                            return Err(EAGAIN);
                        }
                        assert(q.skip(i).drop_first() =~= q.skip(i + 1));
                        proof { i = i + 1; }
                        proof {
                            dropping = msg.spec_more();
                        }
                    }
                },
                Err(e) => {
                    assert(q.len() == i);
                    assert(deliverable(q, i, dropping) is None);
                    assert(self.fq.frames().len() == 0);
                    return Err(e);
                },
            }
        }
        msg.set_routing_id(pipe);
        Ok(())
    }

    pub fn has_in(&self) -> (r: bool)
        ensures
            r == (self.inbound().len() > 0),
    {
        self.fq.has_in()
    }

    /// A SERVER socket can always be written to.
    pub fn has_out(&self) -> (r: bool)
        ensures
            r,
    {
        true
    }
}

} // verus!
