use std::collections::VecDeque;
use std::sync::Arc;
use vstd::prelude::*;

verus! {

/// A message: its bytes and its flag bits.
#[derive(Clone)]
pub struct Msg {
    data: Vec<u8>,
    flags: u32,
}

/// The flag bits a message can carry.
#[allow(non_camel_case_types)]
#[derive(Clone, Copy)]
pub enum MsgFlags {
    MORE,
    DELIMITER,
    ROUTING_ID,
    CREDENTIAL,
}

impl MsgFlags {
    pub open spec fn spec_bit(self) -> u32 {
        match self {
            MsgFlags::MORE => 1,
            MsgFlags::DELIMITER => 2,
            MsgFlags::ROUTING_ID => 4,
            MsgFlags::CREDENTIAL => 8,
        }
    }

    /// The bit that stands for this flag.
    pub fn bit(self) -> (b: u32)
        ensures
            b == self.spec_bit(),
    {
        match self {
            MsgFlags::MORE => 1,
            MsgFlags::DELIMITER => 2,
            MsgFlags::ROUTING_ID => 4,
            MsgFlags::CREDENTIAL => 8,
        }
    }
}

impl Msg {
    pub closed spec fn body(&self) -> Seq<u8> {
        self.data@
    }

    pub closed spec fn flag_bits(&self) -> u32 {
        self.flags
    }

    pub open spec fn spec_is_delimiter(&self) -> bool {
        self.flag_bits() & 2 != 0
    }

    pub fn new() -> (m: Self)
        ensures
            m.body() == Seq::<u8>::empty(),
            m.flag_bits() == 0,
    {
        Self { data: Vec::new(), flags: 0 }
    }

    /// Resizes the body to `size` bytes, zero-filling any new ones.
    pub fn init_size(&mut self, size: usize) -> (rc: i32)
        ensures
            rc == 0,
            final(self).body().len() == size,
            forall|i: int|
                0 <= i < size ==> #[trigger] final(self).body()[i] == if i < old(self).body().len() {
                    old(self).body()[i]
                } else {
                    0u8
                },
            final(self).flag_bits() == old(self).flag_bits(),
    {
        if size <= self.data.len() {
            self.data.truncate(size);
        } else {
            while self.data.len() < size
                invariant
                    old(self).data@.len() <= self.data@.len() <= size,
                    forall|i: int| 0 <= i < old(self).data@.len() ==> self.data@[i] == old(self).data@[i],
                    forall|i: int| old(self).data@.len() <= i < self.data@.len() ==> self.data@[i] == 0u8,
                    self.flags == old(self).flags,
                decreases size - self.data@.len(),
            {
                self.data.push(0);
            }
        }
        0
    }

    /// Replaces the body by the first `size` bytes of `data`.
    pub fn init_buffer(&mut self, data: &[u8], size: usize) -> (rc: i32)
        requires
            size <= data@.len(),
        ensures
            rc == 0,
            final(self).body() == data@.take(size as int),
            final(self).flag_bits() == old(self).flag_bits(),
    {
        self.data = vstd::slice::slice_to_vec(vstd::slice::slice_subrange(data, 0, size));
        0
    }

    pub fn close(&mut self)
        ensures
            final(self).body() == Seq::<u8>::empty(),
            final(self).flag_bits() == old(self).flag_bits(),
    {
        self.data.clear();
    }

    pub fn is_delimiter(&self) -> (r: bool)
        ensures
            r == (self.flag_bits() & 2 != 0),
    {
        (self.flags & MsgFlags::DELIMITER.bit()) != 0
    }

    pub fn is_routing_id(&self) -> (r: bool)
        ensures
            r == (self.flag_bits() & 4 != 0),
    {
        (self.flags & MsgFlags::ROUTING_ID.bit()) != 0
    }

    pub fn is_credential(&self) -> (r: bool)
        ensures
            r == (self.flag_bits() & 8 != 0),
    {
        (self.flags & MsgFlags::CREDENTIAL.bit()) != 0
    }

    pub fn flags(&self) -> (f: u32)
        ensures
            f == self.flag_bits(),
    {
        self.flags
    }

    pub fn set_flags(&mut self, flags: u32)
        ensures
            final(self).flag_bits() == flags,
            final(self).body() == old(self).body(),
    {
        self.flags = flags;
    }

    /// Turns the message into a delimiter: the delimiter flag alone.
    pub fn init_delimiter(&mut self)
        ensures
            final(self).flag_bits() == 2,
            final(self).body() == old(self).body(),
    {
        self.flags = MsgFlags::DELIMITER.bit();
    }
}

/// Notifications a pipe gives to the object it feeds.
pub trait PipeEvents {
    fn read_activated(&mut self, pipe: &mut Pipe);

    fn write_activated(&mut self, pipe: &mut Pipe);

    fn hiccuped(&mut self, pipe: &mut Pipe);

    fn pipe_terminated(&mut self, pipe: &mut Pipe);
}

/// A byte string used as a routing id.
#[derive(Clone)]
pub struct Blob {
    data: Vec<u8>,
}

impl Blob {
    pub closed spec fn bytes(&self) -> Seq<u8> {
        self.data@
    }

    pub fn from_bytes(data: &[u8]) -> (b: Self)
        ensures
            b.bytes() == data@,
    {
        Blob { data: vstd::slice::slice_to_vec(data) }
    }

    pub fn data(&self) -> (d: &[u8])
        ensures
            d@ == self.bytes(),
    {
        self.data.as_slice()
    }

    /// Makes this blob an independent copy of `other`.
    pub fn set_deep_copy(&mut self, other: &Blob)
        ensures
            final(self).bytes() == other.bytes(),
    {
        self.data = other.data.clone();
    }
}

/// The local and remote endpoint of a connection.
#[derive(Clone)]
pub struct EndpointUriPair {
    local: String,
    remote: String,
}

/// A one-directional message queue.
pub struct YPipe {
    queue: VecDeque<Msg>,
    conflate: bool,
}

impl YPipe {
    /// The queued messages, oldest first.
    pub closed spec fn messages(&self) -> Seq<Msg> {
        self.queue@
    }

    pub closed spec fn conflates(&self) -> bool {
        self.conflate
    }

    pub fn new(conflate: bool) -> (p: Self)
        ensures
            p.messages() == Seq::<Msg>::empty(),
            p.conflates() == conflate,
    {
        Self { queue: VecDeque::new(), conflate }
    }

    /// Queues `msg`; a conflating pipe first drops everything queued when
    /// `msg` is the last part of a message.
    pub fn write(&mut self, msg: Msg, more: bool)
        ensures
            final(self).conflates() == old(self).conflates(),
            final(self).messages() == (if old(self).conflates() && !more {
                Seq::<Msg>::empty()
            } else {
                old(self).messages()
            }).push(msg),
    {
        if self.conflate && !more {
            self.queue.clear();
        }
        self.queue.push_back(msg);
    }

    /// Moves the oldest message into `msg`; false when there is none.
    pub fn read(&mut self, msg: &mut Msg) -> (ok: bool)
        ensures
            final(self).conflates() == old(self).conflates(),
            ok == (old(self).messages().len() > 0),
            ok ==> *final(msg) == old(self).messages()[0] && final(self).messages()
                == old(self).messages().drop_first(),
            !ok ==> *final(msg) == *old(msg) && final(self).messages() == old(self).messages(),
    {
        match self.queue.pop_front() {
            Some(m) => {
                *msg = m;
                true
            },
            None => false,
        }
    }

    pub fn check_read(&self) -> (r: bool)
        ensures
            r == (self.messages().len() > 0),
    {
        self.queue.len() != 0
    }

    /// Applies `predicate` to the oldest message; false when there is none.
    pub fn probe<F>(&self, predicate: F) -> (r: bool) where F: Fn(&Msg) -> bool
        requires
            forall|m: &Msg| #[trigger] predicate.requires((m,)),
        ensures
            self.messages().len() == 0 ==> !r,
            self.messages().len() > 0 ==> predicate.ensures((&self.messages()[0],), r),
    {
        if self.queue.len() != 0 {
            predicate(&self.queue[0])
        } else {
            false
        }
    }

    /// Whether there is anything queued to hand over.
    pub fn flush(&mut self) -> (r: bool)
        ensures
            r == (old(self).messages().len() > 0),
            final(self).messages() == old(self).messages(),
            final(self).conflates() == old(self).conflates(),
    {
        self.queue.len() != 0
    }
}

/// The queue a pipe holds after the writes `ws` (each a message and whether
/// more parts follow) onto `q`, as `YPipe::write` makes it.
pub open spec fn after_writes(conflate: bool, q: Seq<Msg>, ws: Seq<(Msg, bool)>) -> Seq<Msg>
    decreases ws.len(),
{
    if ws.len() == 0 {
        q
    } else {
        let before = after_writes(conflate, q, ws.drop_last());
        let (m, more) = ws.last();
        (if conflate && !more {
            Seq::<Msg>::empty()
        } else {
            before
        }).push(m)
    }
}

/// A pipe that does not conflate hands out what was written, in the order
/// it was written, after what it already held.
pub proof fn law_pipe_is_fifo(q: Seq<Msg>, ws: Seq<(Msg, bool)>)
    ensures
        after_writes(false, q, ws) == q + ws.map_values(|w: (Msg, bool)| w.0),
    decreases ws.len(),
{
    if ws.len() > 0 {
        law_pipe_is_fifo(q, ws.drop_last());
        assert(ws.drop_last().map_values(|w: (Msg, bool)| w.0).push(ws.last().0) =~= ws.map_values(
            |w: (Msg, bool)| w.0,
        ));
        assert(q + ws.map_values(|w: (Msg, bool)| w.0) =~= (q + ws.drop_last().map_values(
            |w: (Msg, bool)| w.0,
        )).push(ws.last().0));
    } else {
        assert(q + ws.map_values(|w: (Msg, bool)| w.0) =~= q);
    }
}

/// Reading an empty pipe that does not conflate after the writes `ws`: the
/// `i`-th read hands out the `i`-th message written, and after as many reads
/// as writes the pipe is empty, so the next read finds nothing.
pub proof fn law_reads_follow_writes(ws: Seq<(Msg, bool)>, i: int)
    requires
        0 <= i <= ws.len(),
    ensures
        i < ws.len() ==> after_writes(false, Seq::<Msg>::empty(), ws).skip(i)[0] == ws[i].0,
        after_writes(false, Seq::<Msg>::empty(), ws).skip(i).len() == ws.len() - i,
{
    law_pipe_is_fifo(Seq::<Msg>::empty(), ws);
    assert(Seq::<Msg>::empty() + ws.map_values(|w: (Msg, bool)| w.0) =~= ws.map_values(|w: (Msg, bool)| w.0));
}

/// Writing `m1..mk` into an empty pipe that does not conflate, then reading
/// `k` times: before the `i`-th read the pipe holds the messages from `mi`
/// on, so that read succeeds (`check_read` is true) and hands out `mi`;
/// after the `k`-th read the pipe is empty, so the next read fails and
/// `check_read` is false.
pub proof fn law_k_writes_then_k_reads(ws: Seq<(Msg, bool)>)
    ensures
        ({
            let q = after_writes(false, Seq::<Msg>::empty(), ws);
            &&& forall|i: int| 0 <= i < ws.len() ==> #[trigger] q.skip(i).len() > 0 && q.skip(i)[0] == ws[i].0
                && q.skip(i).drop_first() == q.skip(i + 1)
            &&& q.skip(ws.len() as int).len() == 0
        }),
{
    let q = after_writes(false, Seq::<Msg>::empty(), ws);
    law_pipe_is_fifo(Seq::<Msg>::empty(), ws);
    assert(q =~= ws.map_values(|w: (Msg, bool)| w.0));
    assert forall|i: int| 0 <= i < ws.len() implies #[trigger] q.skip(i).len() > 0 && q.skip(i)[0] == ws[i].0
        && q.skip(i).drop_first() == q.skip(i + 1) by {
        law_reads_follow_writes(ws, i);
        assert(q.skip(i).drop_first() =~= q.skip(i + 1));
    }
    law_reads_follow_writes(ws, ws.len() as int);
}

/// A conflating pipe keeps, after the last part of a message, that part
/// alone.
pub proof fn law_conflate_keeps_last(q: Seq<Msg>, ws: Seq<(Msg, bool)>)
    requires
        ws.len() > 0,
        !ws.last().1,
    ensures
        after_writes(true, q, ws) == seq![ws.last().0],
{
    assert(after_writes(true, q, ws) =~= seq![ws.last().0]);
}

/// The termination state of a pipe.
#[derive(PartialEq, Eq, Structural, Clone, Copy)]
pub enum PipeState {
    Active,
    DelimiterReceived,
    WaitingForDelimiter,
    TermAckSent,
    TermReqSent1,
    TermReqSent2,
}

/// One end of a bidirectional pipe.
pub struct Pipe {
    in_pipe: Option<YPipe>,
    out_pipe: Option<YPipe>,
    in_active: bool,
    out_active: bool,
    hwm: i32,
    lwm: i32,
    msgs_read: u64,
    msgs_written: u64,
    peers_msgs_read: u64,
    peer: Option<Arc<Pipe>>,
    state: PipeState,
    delay: bool,
    router_socket_routing_id: Blob,
    server_socket_routing_id: u32,
    conflate: bool,
    endpoint_pair: EndpointUriPair,
    disconnect_msg: Msg,
}

/// Low water mark for a high water mark: half of it, rounded up.
pub open spec fn spec_lwm(hwm: i32) -> i32 {
    let x = hwm + 1;
    (if x >= 0 {
        x / 2
    } else {
        -((-x) / 2)
    }) as i32
}

impl Pipe {
    pub closed spec fn inbound(&self) -> Option<YPipe> {
        self.in_pipe
    }

    pub closed spec fn outbound(&self) -> Option<YPipe> {
        self.out_pipe
    }

    pub closed spec fn is_in_active(&self) -> bool {
        self.in_active
    }

    pub closed spec fn is_out_active(&self) -> bool {
        self.out_active
    }

    pub closed spec fn high_water_mark(&self) -> i32 {
        self.hwm
    }

    pub closed spec fn low_water_mark(&self) -> i32 {
        self.lwm
    }

    pub closed spec fn pipe_state(&self) -> PipeState {
        self.state
    }

    pub closed spec fn peer_pipe(&self) -> Option<Arc<Pipe>> {
        self.peer
    }

    /// How many messages were read from and written to this pipe, and how
    /// many its peer reported read.
    pub closed spec fn counters(&self) -> (u64, u64, u64) {
        (self.msgs_read, self.msgs_written, self.peers_msgs_read)
    }

    /// Whether termination waits for pending messages.
    pub closed spec fn delays(&self) -> bool {
        self.delay
    }

    pub closed spec fn conflates(&self) -> bool {
        self.conflate
    }

    /// Reading is on and the pipe is not being torn down.
    pub open spec fn readable(&self) -> bool {
        self.is_in_active() && (self.pipe_state() == PipeState::Active || self.pipe_state()
            == PipeState::WaitingForDelimiter)
    }

    pub open spec fn inbound_empty(&self) -> bool {
        self.inbound() matches Some(q) && q.messages().len() == 0
    }

    pub open spec fn head_is_delimiter(&self) -> bool {
        self.inbound() matches Some(q) && q.messages().len() > 0 && q.messages()[0].spec_is_delimiter()
    }

    /// Both queues exist, are empty, and conflate as given.
    pub open spec fn has_empty_queues(&self, in_conflate: bool, out_conflate: bool) -> bool {
        &&& self.inbound() matches Some(q) && q.messages() == Seq::<Msg>::empty() && q.conflates() == in_conflate
        &&& self.outbound() matches Some(q) && q.messages() == Seq::<Msg>::empty() && q.conflates() == out_conflate
    }

    /// The state of a freshly made pipe (its queues aside).
    pub closed spec fn is_fresh(&self, inhwm: i32, outhwm: i32, conflate: bool) -> bool {
        &&& self.in_active
        &&& self.out_active
        &&& self.hwm == outhwm
        &&& self.lwm == spec_lwm(inhwm)
        &&& self.msgs_read == 0
        &&& self.msgs_written == 0
        &&& self.peers_msgs_read == 0
        &&& self.peer is None
        &&& self.state == PipeState::Active
        &&& self.delay
        &&& self.router_socket_routing_id.bytes() == Seq::<u8>::empty()
        &&& self.server_socket_routing_id == 0
        &&& self.conflate == conflate
        &&& self.disconnect_msg.body() == Seq::<u8>::empty()
        &&& self.disconnect_msg.flag_bits() == 0
    }

    pub fn new(in_pipe: YPipe, out_pipe: YPipe, inhwm: i32, outhwm: i32, conflate: bool) -> (p: Self)
        requires
            inhwm < i32::MAX,
        ensures
            p.inbound() == Some(in_pipe),
            p.outbound() == Some(out_pipe),
            p.is_fresh(inhwm, outhwm, conflate),
            p.is_in_active() && p.is_out_active(),
            p.high_water_mark() == outhwm,
            p.low_water_mark() == spec_lwm(inhwm),
            p.pipe_state() == PipeState::Active,
            p.peer_pipe() is None,
            p.conflates() == conflate,
            p.counters() == (0u64, 0u64, 0u64),
            p.delays(),
    {
        Self {
            in_pipe: Some(in_pipe),
            out_pipe: Some(out_pipe),
            in_active: true,
            out_active: true,
            hwm: outhwm,
            lwm: Self::compute_lwm(inhwm),
            msgs_read: 0,
            msgs_written: 0,
            peers_msgs_read: 0,
            peer: None,
            state: PipeState::Active,
            delay: true,
            router_socket_routing_id: Blob { data: Vec::new() },
            server_socket_routing_id: 0,
            conflate,
            endpoint_pair: EndpointUriPair { local: String::new(), remote: String::new() },
            disconnect_msg: Msg::new(),
        }
    }

    pub fn set_peer(&mut self, peer: Arc<Pipe>)
        ensures
            final(self).peer_pipe() == Some(peer),
            final(self).inbound() == old(self).inbound(),
            final(self).outbound() == old(self).outbound(),
            final(self).is_in_active() == old(self).is_in_active(),
            final(self).is_out_active() == old(self).is_out_active(),
            final(self).pipe_state() == old(self).pipe_state(),
            final(self).high_water_mark() == old(self).high_water_mark(),
            final(self).low_water_mark() == old(self).low_water_mark(),
            final(self).conflates() == old(self).conflates(),
    {
        self.peer = Some(peer);
    }

    /// Whether a message can be read.  An empty inbound queue deactivates
    /// reading; a delimiter at its head is consumed and handled.
    pub fn check_read(&mut self) -> (r: bool)
        ensures
            r == (old(self).readable() && !old(self).inbound_empty() && !old(self).head_is_delimiter()),
            final(self).is_in_active() == (old(self).is_in_active() && !(old(self).readable()
                && old(self).inbound_empty())),
            ({
                if old(self).readable() && old(self).head_is_delimiter() {
                    &&& final(self).inbound() matches Some(q2) && q2.messages()
                        == old(self).inbound()->0.messages().drop_first()
                        && q2.conflates() == old(self).inbound()->0.conflates()
                    &&& final(self).pipe_state() == if old(self).pipe_state() == PipeState::Active {
                        PipeState::DelimiterReceived
                    } else {
                        PipeState::TermAckSent
                    }
                    &&& final(self).outbound() == if old(self).pipe_state() == PipeState::Active {
                        old(self).outbound()
                    } else {
                        None
                    }
                } else {
                    &&& final(self).inbound() == old(self).inbound()
                    &&& final(self).pipe_state() == old(self).pipe_state()
                    &&& final(self).outbound() == old(self).outbound()
                }
            }),
            final(self).peer_pipe() == old(self).peer_pipe(),
    {
        if !self.in_active {
            return false;
        }
        if self.state != PipeState::Active && self.state != PipeState::WaitingForDelimiter {
            return false;
        }
        let mut taken = None;
        std::mem::swap(&mut taken, &mut self.in_pipe);
        match taken {
            Some(mut in_pipe) => {
                if !in_pipe.check_read() {
                    self.in_pipe = Some(in_pipe);
                    self.in_active = false;
                    return false;
                }
                if in_pipe.probe(Msg::is_delimiter) {
                    let mut msg = Msg::new();
                    in_pipe.read(&mut msg);
                    self.in_pipe = Some(in_pipe);
                    self.process_delimiter();
                    return false;
                }
                self.in_pipe = Some(in_pipe);
            },
            None => {},
        }
        true
    }

    fn compute_lwm(hwm: i32) -> (lwm: i32)
        requires
            hwm < i32::MAX,
        ensures
            lwm == spec_lwm(hwm),
    {
        (hwm + 1) / 2
    }

    fn process_delimiter(&mut self)
        ensures
            final(self).state == match old(self).state {
                PipeState::Active => PipeState::DelimiterReceived,
                PipeState::WaitingForDelimiter => PipeState::TermAckSent,
                s => s,
            },
            final(self).out_pipe == if old(self).state == PipeState::WaitingForDelimiter {
                None
            } else {
                old(self).out_pipe
            },
            final(self).in_pipe == old(self).in_pipe,
            final(self).in_active == old(self).in_active,
            final(self).peer == old(self).peer,
    {
        match self.state {
            PipeState::Active => {
                self.state = PipeState::DelimiterReceived;
            },
            PipeState::WaitingForDelimiter => {
                self.rollback();
                self.out_pipe = None;
                self.state = PipeState::TermAckSent;
            },
            _ => {},
        }
    }

    /// Drops every message still queued outbound.
    fn rollback(&mut self)
        ensures
            final(self).out_pipe == match old(self).out_pipe {
                Some(q) => Some(YPipe { queue: final(self).out_pipe->0.queue, conflate: q.conflate }),
                None => None,
            },
            final(self).out_pipe matches Some(q) ==> q.queue@ == Seq::<Msg>::empty(),
            final(self).state == old(self).state,
            final(self).in_pipe == old(self).in_pipe,
            final(self).in_active == old(self).in_active,
            final(self).peer == old(self).peer,
    {
        let mut taken = None;
        std::mem::swap(&mut taken, &mut self.out_pipe);
        match taken {
            Some(mut out_pipe) => {
                while out_pipe.queue.len() > 0
                    invariant
                        out_pipe.conflate == old(self).out_pipe->0.conflate,
                    decreases out_pipe.queue@.len(),
                {
                    let _msg = out_pipe.queue.pop_back();
                }
                self.out_pipe = Some(out_pipe);
            },
            None => {},
        }
    }
}

/// Makes the two ends of a pipe: the first end's inbound queue is built as
/// the second end's outbound one and the other way round (conflation and
/// water marks cross over), and each knows a copy of the other as its peer.
/// Each end owns its queues: a message written on one end is not seen by
/// the other.
pub fn create_pipe_pair(conflate: [bool; 2], hwms: [i32; 2]) -> (pair: (Pipe, Pipe))
    requires
        hwms[0] < i32::MAX,
        hwms[1] < i32::MAX,
    ensures
        pair.0.has_empty_queues(conflate[0], conflate[1]),
        pair.1.has_empty_queues(conflate[1], conflate[0]),
        pair.0.high_water_mark() == hwms[1],
        pair.0.low_water_mark() == spec_lwm(hwms[0]),
        pair.1.high_water_mark() == hwms[0],
        pair.1.low_water_mark() == spec_lwm(hwms[1]),
        pair.0.conflates() == conflate[0],
        pair.1.conflates() == conflate[1],
        pair.0.is_in_active() && pair.0.is_out_active(),
        pair.1.is_in_active() && pair.1.is_out_active(),
        pair.0.pipe_state() == PipeState::Active,
        pair.1.pipe_state() == PipeState::Active,
        pair.0.peer_pipe() is Some,
        pair.0.peer_pipe()->0.is_fresh(hwms[1], hwms[0], conflate[1]),
        pair.0.peer_pipe()->0.has_empty_queues(conflate[1], conflate[0]),
        pair.1.peer_pipe() is Some,
        pair.1.peer_pipe()->0.is_fresh(hwms[0], hwms[1], conflate[0]),
        pair.1.peer_pipe()->0.has_empty_queues(conflate[0], conflate[1]),
{
    let mut pipe_a = Pipe::new(YPipe::new(conflate[0]), YPipe::new(conflate[1]), hwms[0], hwms[1], conflate[0]);
    let mut pipe_b = Pipe::new(YPipe::new(conflate[1]), YPipe::new(conflate[0]), hwms[1], hwms[0], conflate[1]);
    let pipe_a_copy = Pipe::new(YPipe::new(conflate[0]), YPipe::new(conflate[1]), hwms[0], hwms[1], conflate[0]);
    let pipe_b_copy = Pipe::new(YPipe::new(conflate[1]), YPipe::new(conflate[0]), hwms[1], hwms[0], conflate[1]);
    pipe_a.set_peer(Arc::new(pipe_b_copy));
    pipe_b.set_peer(Arc::new(pipe_a_copy));
    (pipe_a, pipe_b)
}

} // verus!
