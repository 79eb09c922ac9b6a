use std::collections::VecDeque;
use vstd::prelude::*;

verus! {

/// How many messages one direction forwards before the other gets a turn.
pub const PROXY_BURST_SIZE: usize = 1000;

/// Receive without waiting.
pub const ZMQ_DONTWAIT: i32 = 1;

/// Send: more parts follow.
pub const ZMQ_SNDMORE: i32 = 2;

/// Option: whether the last part received has more parts after it.
pub const ZMQ_RCVMORE: i32 = 1;

/// Option: the socket's type.
pub const ZMQ_TYPE: i32 = 3;

/// The socket type a control socket answers from.
pub const CONTROL_REPLY_TYPE: i32 = 6;

/// A proxy operation failed: a socket had nothing to receive.
#[derive(Debug, Clone, Copy, PartialEq, Eq)]
pub struct Error;

/// A message: its bytes.
pub struct Message {
    data: Vec<u8>,
}

impl Message {
    pub closed spec fn body(&self) -> Seq<u8> {
        self.data@
    }

    pub fn new() -> (r: Result<Self, Error>)
        ensures
            r is Ok,
            r->Ok_0.body() == Seq::<u8>::empty(),
    {
        Ok(Message { data: Vec::new() })
    }

    /// Makes this message a copy of `other`.
    pub fn copy(&mut self, other: &Message) -> (r: Result<(), Error>)
        ensures
            r is Ok,
            final(self).body() == other.body(),
    {
        self.data = vstd::slice::slice_to_vec(other.data.as_slice());
        Ok(())
    }

    pub fn size(&self) -> (n: usize)
        ensures
            n == self.body().len(),
    {
        self.data.len()
    }

    pub fn data(&self) -> (d: &[u8])
        ensures
            d@ == self.body(),
    {
        self.data.as_slice()
    }

    /// Makes the message `size` zero bytes.
    pub fn init_size(&mut self, size: usize) -> (r: Result<(), Error>)
        ensures
            r is Ok,
            final(self).body() == Seq::new(size as nat, |i: int| 0u8),
    {
        let mut v: Vec<u8> = Vec::new();
        while v.len() < size
            invariant
                v@.len() <= size,
                forall|i: int| 0 <= i < v@.len() ==> #[trigger] v@[i] == 0u8,
            decreases size - v@.len(),
        {
            v.push(0u8);
        }
        assert(v@ =~= Seq::new(size as nat, |i: int| 0u8));
        self.data = v;
        Ok(())
    }

    /// Makes the message the eight bytes of `n`, least significant first.
    pub fn set_u64(&mut self, n: u64)
        ensures
            final(self).body() == le64(n),
    {
        let mut v: Vec<u8> = Vec::new();
        let mut i: u64 = 0;
        while i < 8
            invariant
                i <= 8,
                v@ == le64(n).take(i as int),
            decreases 8 - i,
        {
            v.push(((n >> (8 * i)) & 0xff) as u8);
            i += 1;
            assert(v@ =~= le64(n).take(i as int));
        }
        assert(le64(n).take(8) =~= le64(n));
        self.data = v;
    }
}

/// The eight bytes of `n`, least significant first.
pub open spec fn le64(n: u64) -> Seq<u8> {
    Seq::new(8, |i: int| ((n >> (8 * i) as u64) & 0xff) as u8)
}

/// A socket as the proxy uses it: the parts waiting to be received (bytes
/// and whether more follow), the parts sent (bytes and send flags), its
/// type, and whether the last part received had more after it.
pub struct Socket {
    inbound: VecDeque<(Vec<u8>, bool)>,
    sent: Vec<(Vec<u8>, i32)>,
    socket_type: i32,
    last_more: bool,
}

impl Socket {
    pub closed spec fn spec_inbound(&self) -> Seq<(Seq<u8>, bool)> {
        self.inbound@.map_values(|f: (Vec<u8>, bool)| (f.0@, f.1))
    }

    pub closed spec fn spec_sent(&self) -> Seq<(Seq<u8>, i32)> {
        self.sent@.map_values(|f: (Vec<u8>, i32)| (f.0@, f.1))
    }

    pub closed spec fn spec_type(&self) -> i32 {
        self.socket_type
    }

    pub closed spec fn spec_last_more(&self) -> bool {
        self.last_more
    }

    pub fn new(socket_type: i32) -> (s: Self)
        ensures
            s.spec_inbound() == Seq::<(Seq<u8>, bool)>::empty(),
            s.spec_sent() == Seq::<(Seq<u8>, i32)>::empty(),
            s.spec_type() == socket_type,
            !s.spec_last_more(),
    {
        let s = Socket { inbound: VecDeque::new(), sent: Vec::new(), socket_type, last_more: false };
        assert(s.spec_inbound() =~= Seq::<(Seq<u8>, bool)>::empty());
        assert(s.spec_sent() =~= Seq::<(Seq<u8>, i32)>::empty());
        s
    }

    /// A part arrives from the peer.
    pub fn deliver(&mut self, data: Vec<u8>, more: bool)
        ensures
            final(self).spec_inbound() == old(self).spec_inbound().push((data@, more)),
            final(self).spec_sent() == old(self).spec_sent(),
            final(self).spec_type() == old(self).spec_type(),
            final(self).spec_last_more() == old(self).spec_last_more(),
    {
        let ghost d = data@;
        self.inbound.push_back((data, more));
        assert(self.spec_inbound() =~= old(self).spec_inbound().push((d, more)));
    }

    /// The parts sent so far.
    pub fn sent(&self) -> (s: &Vec<(Vec<u8>, i32)>)
        ensures
            s@.map_values(|f: (Vec<u8>, i32)| (f.0@, f.1)) == self.spec_sent(),
    {
        &self.sent
    }

    /// How many parts wait to be received.
    pub fn pending(&self) -> (n: usize)
        ensures
            n == self.spec_inbound().len(),
    {
        self.inbound.len()
    }

    pub fn send(&mut self, msg: &Message, flags: i32) -> (r: Result<(), Error>)
        ensures
            r is Ok,
            final(self).spec_sent() == old(self).spec_sent().push((msg.body(), flags)),
            final(self).spec_inbound() == old(self).spec_inbound(),
            final(self).spec_type() == old(self).spec_type(),
            final(self).spec_last_more() == old(self).spec_last_more(),
    {
        self.sent.push((vstd::slice::slice_to_vec(msg.data.as_slice()), flags));
        assert(self.spec_sent() =~= old(self).spec_sent().push((msg.body(), flags)));
        Ok(())
    }

    /// Moves the next part into `msg`; an error when there is none.
    pub fn recv(&mut self, msg: &mut Message, flags: i32) -> (r: Result<(), Error>)
        ensures
            final(self).spec_sent() == old(self).spec_sent(),
            final(self).spec_type() == old(self).spec_type(),
            old(self).spec_inbound().len() == 0 ==> r is Err && final(self).spec_inbound() == old(self).spec_inbound() && *final(msg) == *old(msg) && final(self).spec_last_more() == old(self).spec_last_more(),
            old(self).spec_inbound().len() > 0 ==> r is Ok && final(msg).body() == old(self).spec_inbound()[0].0 && final(self).spec_last_more() == old(self).spec_inbound()[0].1
                && final(self).spec_inbound() == old(self).spec_inbound().drop_first(),
    {
        match self.inbound.pop_front() {
            Some((data, more)) => {
                msg.data = data;
                self.last_more = more;
                assert(self.spec_inbound() =~= old(self).spec_inbound().drop_first());
                Ok(())
            },
            None => {
                assert(self.spec_inbound() =~= old(self).spec_inbound());
                Err(Error)
            },
        }
    }

    /// `ZMQ_RCVMORE` (1 when the last part received has more after it) or
    /// `ZMQ_TYPE`; any other option is 0.
    pub fn get_sockopt(&self, opt: i32) -> (r: Result<i32, Error>)
        ensures
            r == Ok::<i32, Error>(
                if opt == ZMQ_RCVMORE {
                    if self.spec_last_more() {
                        1i32
                    } else {
                        0i32
                    }
                } else if opt == ZMQ_TYPE {
                    self.spec_type()
                } else {
                    0i32
                },
            ),
    {
        if opt == ZMQ_RCVMORE {
            Ok(
                if self.last_more {
                    1
                } else {
                    0
                },
            )
        } else if opt == ZMQ_TYPE {
            Ok(self.socket_type)
        } else {
            Ok(0)
        }
    }
}

/// Messages and bytes one socket moved in one direction.
#[derive(Clone, Copy)]
pub struct StatsSocket {
    pub count: u64,
    pub bytes: u64,
}

/// The sent and received statistics of one side.
#[derive(Clone, Copy)]
pub struct StatsEndpoint {
    pub send: StatsSocket,
    pub recv: StatsSocket,
}

/// The statistics of both sides.
#[derive(Clone, Copy)]
pub struct StatsProxy {
    pub frontend: StatsEndpoint,
    pub backend: StatsEndpoint,
}

impl StatsProxy {
    pub fn new() -> (s: Self)
        ensures
            s.frontend.send.count == 0 && s.frontend.send.bytes == 0,
            s.frontend.recv.count == 0 && s.frontend.recv.bytes == 0,
            s.backend.send.count == 0 && s.backend.send.bytes == 0,
            s.backend.recv.count == 0 && s.backend.recv.bytes == 0,
    {
        let zero = StatsSocket { count: 0, bytes: 0 };
        StatsProxy {
            frontend: StatsEndpoint { send: zero, recv: zero },
            backend: StatsEndpoint { send: zero, recv: zero },
        }
    }
}

/// Whether the proxy forwards, waits, or has stopped.
#[derive(Debug, Clone, Copy, PartialEq, Eq, Structural)]
pub enum ProxyState {
    Active,
    Paused,
    Terminated,
}

/// How many parts one `forward` takes from `frames` when it is at message
/// `i` of its burst and part `k`, and whether it succeeds: it stops after
/// a whole burst of messages, and when the parts run out, which is an error
/// only in the burst's first message.
pub open spec fn forward_outcome(frames: Seq<(Seq<u8>, bool)>, i: nat, k: nat) -> (bool, nat)
    decreases frames.len() - k,
{
    if i >= PROXY_BURST_SIZE {
        (true, k)
    } else if k >= frames.len() {
        (i > 0, k)
    } else if frames[k as int].1 {
        forward_outcome(frames, i, k + 1)
    } else {
        forward_outcome(frames, i + 1, k + 1)
    }
}

proof fn lemma_forward_outcome_bound(frames: Seq<(Seq<u8>, bool)>, i: nat, k: nat)
    requires
        k <= frames.len(),
    ensures
        k <= forward_outcome(frames, i, k).1 <= frames.len(),
        !forward_outcome(frames, i, k).0 ==> forward_outcome(frames, i, k).1 == frames.len(),
    decreases frames.len() - k,
{
    if i < PROXY_BURST_SIZE && k < frames.len() {
        if frames[k as int].1 {
            lemma_forward_outcome_bound(frames, i, k + 1);
        } else {
            lemma_forward_outcome_bound(frames, i + 1, k + 1);
        }
    }
}

/// The send flags a forwarded part carries.
pub open spec fn forward_flags(more: bool) -> i32 {
    if more {
        ZMQ_SNDMORE
    } else {
        0
    }
}

/// The send flags a captured part carries.
pub open spec fn capture_flags(more: bool) -> i32 {
    if more {
        1
    } else {
        0
    }
}

/// The total size of the parts `frames`.
pub open spec fn total_bytes(frames: Seq<(Seq<u8>, bool)>) -> nat
    decreases frames.len(),
{
    if frames.len() == 0 {
        0
    } else {
        total_bytes(frames.drop_last()) + frames.last().0.len()
    }
}

/// Whether the capture socket `after` is `before` with `parts` sent.
pub open spec fn capture_sent(before: Option<Socket>, after: Option<Socket>, parts: Seq<(Seq<u8>, i32)>) -> bool {
    match before {
        None => after is None,
        Some(c) => match after {
            Some(c2) => {
                &&& c2.spec_sent() == c.spec_sent() + parts
                &&& c2.spec_inbound() == c.spec_inbound()
                &&& c2.spec_type() == c.spec_type()
                &&& c2.spec_last_more() == c.spec_last_more()
            },
            None => false,
        },
    }
}

/// Sends a copy of `msg` to the capture socket, if there is one.
pub fn capture(capture_socket: &mut Option<Socket>, msg: &Message, more: bool) -> (r: Result<(), Error>)
    ensures
        r is Ok,
        capture_sent(*old(capture_socket), *final(capture_socket), seq![(msg.body(), capture_flags(more))]),
{
    if capture_socket.is_none() {
        return Ok(());
    }
    let mut c = capture_socket.take().unwrap();
    let mut ctrl = Message { data: Vec::new() };
    let _ = ctrl.copy(msg);
    let flags = if more {
        1
    } else {
        0
    };
    let ghost before = c;
    let r = c.send(&ctrl, flags);
    assert(c.spec_sent() =~= before.spec_sent() + seq![(msg.body(), capture_flags(more))]);
    *capture_socket = Some(c);
    r
}

/// Adding `d` to a counter that holds `a` modulo 2^64 makes it hold `a + d`
/// modulo 2^64.
proof fn lemma_wrapping_step(a: int, d: int, w: u64)
    requires
        w as int == a % 0x1_0000_0000_0000_0000,
        0 <= d < 0x1_0000_0000_0000_0000,
    ensures
        vstd::wrapping::u64_specs::wrapping_add(w, d as u64) as int == (a + d) % 0x1_0000_0000_0000_0000,
{
    vstd::arithmetic::div_mod::lemma_add_mod_noop_right(d, a, 0x1_0000_0000_0000_0000);
}

/// Moves one part from `from` to `to`, copying it to `capture`, and counts
/// it; returns whether more parts of its message follow.  An error when
/// `from` has nothing.
fn forward_part(
    from: &mut Socket,
    to: &mut Socket,
    capture_socket: &mut Option<Socket>,
    msg: &mut Message,
    recv_stats: &mut StatsSocket,
    send_stats: &mut StatsSocket,
) -> (r: Result<bool, Error>)
    ensures
        final(from).spec_sent() == old(from).spec_sent(),
        final(from).spec_type() == old(from).spec_type(),
        final(to).spec_inbound() == old(to).spec_inbound(),
        final(to).spec_type() == old(to).spec_type(),
        final(to).spec_last_more() == old(to).spec_last_more(),
        old(from).spec_inbound().len() == 0 ==> {
            &&& r is Err
            &&& final(from).spec_inbound() == old(from).spec_inbound()
            &&& final(to).spec_sent() == old(to).spec_sent()
            &&& *final(capture_socket) == *old(capture_socket)
            &&& *final(recv_stats) == *old(recv_stats)
            &&& *final(send_stats) == *old(send_stats)
        },
        old(from).spec_inbound().len() > 0 ==> {
            let f = old(from).spec_inbound()[0];
            &&& f.0.len() <= usize::MAX
            &&& r == Ok::<bool, Error>(f.1)
            &&& final(from).spec_inbound() == old(from).spec_inbound().drop_first()
            &&& final(to).spec_sent() == old(to).spec_sent().push((f.0, forward_flags(f.1)))
            &&& capture_sent(*old(capture_socket), *final(capture_socket), seq![(f.0, capture_flags(f.1))])
            &&& final(recv_stats).count == vstd::wrapping::u64_specs::wrapping_add(old(recv_stats).count, 1)
            &&& final(recv_stats).bytes == vstd::wrapping::u64_specs::wrapping_add(old(recv_stats).bytes, f.0.len() as u64)
            &&& final(send_stats).count == vstd::wrapping::u64_specs::wrapping_add(old(send_stats).count, 1)
            &&& final(send_stats).bytes == vstd::wrapping::u64_specs::wrapping_add(old(send_stats).bytes, f.0.len() as u64)
        },
{
    let rc = from.recv(msg, ZMQ_DONTWAIT);
    if rc.is_err() {
        return Err(Error);
    }
    let nbytes = msg.size();
    recv_stats.count = recv_stats.count.wrapping_add(1);
    recv_stats.bytes = recv_stats.bytes.wrapping_add(nbytes as u64);
    let more = match from.get_sockopt(ZMQ_RCVMORE) {
        Ok(v) => v,
        Err(e) => {
            return Err(e);
        },
    };
    let _ = capture(capture_socket, msg, more != 0);
    let _ = to.send(msg, if more != 0 {
        ZMQ_SNDMORE
    } else {
        0
    });
    send_stats.count = send_stats.count.wrapping_add(1);
    send_stats.bytes = send_stats.bytes.wrapping_add(nbytes as u64);
    Ok(more != 0)
}

/// What forwarding the parts `frames` does to the receiving socket's sent
/// parts and to a capture socket's.
pub open spec fn forwarded(frames: Seq<(Seq<u8>, bool)>) -> Seq<(Seq<u8>, i32)> {
    frames.map_values(|f: (Seq<u8>, bool)| (f.0, forward_flags(f.1)))
}

pub open spec fn captured(frames: Seq<(Seq<u8>, bool)>) -> Seq<(Seq<u8>, i32)> {
    frames.map_values(|f: (Seq<u8>, bool)| (f.0, capture_flags(f.1)))
}

/// Whether the statistics `after` are `before` with `frames` added.
pub open spec fn stats_added(before: StatsSocket, after: StatsSocket, frames: Seq<(Seq<u8>, bool)>) -> bool {
    &&& after.count as int == (before.count + frames.len()) % 0x1_0000_0000_0000_0000
    &&& after.bytes as int == (before.bytes + total_bytes(frames)) % 0x1_0000_0000_0000_0000
}

/// Forwards a burst of up to `PROXY_BURST_SIZE` whole messages from `from`
/// to `to`, copying each part to `capture`, and counts them (counts wrap).
/// Running out of parts ends the burst; it is an error only before the
/// first message is complete.
pub fn forward(
    from: &mut Socket,
    to: &mut Socket,
    capture_socket: &mut Option<Socket>,
    msg: &mut Message,
    recv_stats: &mut StatsSocket,
    send_stats: &mut StatsSocket,
) -> (r: Result<(), Error>)
    ensures
        ({
            let frames = old(from).spec_inbound();
            let (ok, n) = forward_outcome(frames, 0, 0);
            let moved = frames.take(n as int);
            &&& (r is Ok <==> ok)
            &&& final(from).spec_inbound() == frames.skip(n as int)
            &&& final(from).spec_sent() == old(from).spec_sent()
            &&& final(from).spec_type() == old(from).spec_type()
            &&& final(to).spec_sent() == old(to).spec_sent() + forwarded(moved)
            &&& final(to).spec_inbound() == old(to).spec_inbound()
            &&& final(to).spec_type() == old(to).spec_type()
            &&& final(to).spec_last_more() == old(to).spec_last_more()
            &&& stats_added(*old(recv_stats), *final(recv_stats), moved)
            &&& stats_added(*old(send_stats), *final(send_stats), moved)
            &&& capture_sent(*old(capture_socket), *final(capture_socket), captured(moved))
        }),
{
    let ghost frames = from.spec_inbound();
    let ghost to_sent0 = to.spec_sent();
    let ghost recv0 = *recv_stats;
    let ghost send0 = *send_stats;
    let ghost cap0 = *capture_socket;
    let ghost mut k: nat = 0;
    proof {
        lemma_forward_outcome_bound(frames, 0, 0);
        assert(frames.take(0) =~= Seq::<(Seq<u8>, bool)>::empty());
        assert(to_sent0 + forwarded(frames.take(0)) =~= to_sent0);
    }
    let mut i: usize = 0;
    while i < PROXY_BURST_SIZE
        invariant
            i <= PROXY_BURST_SIZE,
            k <= frames.len(),
            forward_outcome(frames, i as nat, k) == forward_outcome(frames, 0, 0),
            from.spec_inbound() == frames.skip(k as int),
            from.spec_sent() == old(from).spec_sent(),
            from.spec_type() == old(from).spec_type(),
            to.spec_sent() == to_sent0 + forwarded(frames.take(k as int)),
            to_sent0 == old(to).spec_sent(),
            to.spec_inbound() == old(to).spec_inbound(),
            to.spec_type() == old(to).spec_type(),
            to.spec_last_more() == old(to).spec_last_more(),
            frames == old(from).spec_inbound(),
            recv0 == *old(recv_stats),
            send0 == *old(send_stats),
            stats_added(recv0, *recv_stats, frames.take(k as int)),
            stats_added(send0, *send_stats, frames.take(k as int)),
            cap0 == *old(capture_socket),
            capture_sent(cap0, *capture_socket, captured(frames.take(k as int))),
        decreases PROXY_BURST_SIZE - i,
    {
        loop
            invariant_except_break
                forward_outcome(frames, i as nat, k) == forward_outcome(frames, 0, 0),
            invariant
                i < PROXY_BURST_SIZE,
                k <= frames.len(),
                from.spec_inbound() == frames.skip(k as int),
                from.spec_sent() == old(from).spec_sent(),
                from.spec_type() == old(from).spec_type(),
                to.spec_sent() == to_sent0 + forwarded(frames.take(k as int)),
                to_sent0 == old(to).spec_sent(),
                to.spec_inbound() == old(to).spec_inbound(),
                to.spec_type() == old(to).spec_type(),
                to.spec_last_more() == old(to).spec_last_more(),
                frames == old(from).spec_inbound(),
                stats_added(recv0, *recv_stats, frames.take(k as int)),
                stats_added(send0, *send_stats, frames.take(k as int)),
                cap0 == *old(capture_socket),
                recv0 == *old(recv_stats),
                send0 == *old(send_stats),
                capture_sent(cap0, *capture_socket, captured(frames.take(k as int))),
            ensures
                k <= frames.len(),
                forward_outcome(frames, (i + 1) as nat, k) == forward_outcome(frames, 0, 0),
                from.spec_inbound() == frames.skip(k as int),
                to.spec_sent() == to_sent0 + forwarded(frames.take(k as int)),
                stats_added(recv0, *recv_stats, frames.take(k as int)),
                stats_added(send0, *send_stats, frames.take(k as int)),
                capture_sent(cap0, *capture_socket, captured(frames.take(k as int))),
                from.spec_sent() == old(from).spec_sent(),
                from.spec_type() == old(from).spec_type(),
                to.spec_inbound() == old(to).spec_inbound(),
                to.spec_type() == old(to).spec_type(),
                to.spec_last_more() == old(to).spec_last_more(),
            decreases frames.len() - k,
        {
            let ghost frames_before = from.spec_inbound();
            let ghost rs0 = *recv_stats;
            let ghost ss0 = *send_stats;
            let ghost cap_before = *capture_socket;
            let ghost sent_before = to.spec_sent();
            let step = forward_part(from, to, capture_socket, msg, recv_stats, send_stats);
            let more = match step {
                Err(_) => {
                    proof {
                        assert(k == frames.len());
                        assert(frames.skip(k as int) =~= Seq::<(Seq<u8>, bool)>::empty());
                        assert(frames.take(k as int) =~= frames);
                    }
                    if i > 0 {
                        return Ok(());
                    }
                    return Err(Error);
                },
                Ok(m) => m,
            };
            let ghost f = frames[k as int];
            proof {
                assert(frames.skip(k as int)[0] == f);
                assert(frames.skip(k as int).drop_first() =~= frames.skip((k + 1) as int));
                assert(frames.take((k + 1) as int) =~= frames.take(k as int).push(f));
                assert(frames.take((k + 1) as int).drop_last() =~= frames.take(k as int));
                assert(to.spec_sent() =~= to_sent0 + forwarded(frames.take((k + 1) as int)));
                assert(captured(frames.take((k + 1) as int)) =~= captured(frames.take(k as int)).push((f.0, capture_flags(f.1))));
                lemma_wrapping_step(recv0.count + k, 1, rs0.count);
                lemma_wrapping_step(send0.count + k, 1, ss0.count);
                lemma_wrapping_step(recv0.bytes + total_bytes(frames.take(k as int)), f.0.len() as int, rs0.bytes);
                lemma_wrapping_step(send0.bytes + total_bytes(frames.take(k as int)), f.0.len() as int, ss0.bytes);
                match cap0 {
                    Some(c0) => {
                        assert(capture_sent(cap0, *capture_socket, captured(frames.take((k + 1) as int)))) by {
                            let c1 = cap_before->0;
                            let c2 = (*capture_socket)->0;
                            assert(c2.spec_sent() =~= c0.spec_sent() + captured(frames.take((k + 1) as int)));
                        }
                    },
                    None => {},
                }
                k = k + 1;
            }
            if !more {
                break;
            }
        }
        i += 1;
    }
    proof {
        assert(forward_outcome(frames, PROXY_BURST_SIZE as nat, k) == (true, k));
    }
    Ok(())
}

/// What a control command does to the proxy's state.
pub open spec fn control_state(command: Seq<u8>, state: ProxyState) -> ProxyState {
    if command == pause_command() {
        ProxyState::Paused
    } else if command == resume_command() {
        ProxyState::Active
    } else if command == terminate_command() {
        ProxyState::Terminated
    } else {
        state
    }
}

/// "STATISTICS".
pub open spec fn statistics_command() -> Seq<u8> {
    seq![83u8, 84u8, 65u8, 84u8, 73u8, 83u8, 84u8, 73u8, 67u8, 83u8]
}

/// "PAUSE".
pub open spec fn pause_command() -> Seq<u8> {
    seq![80u8, 65u8, 85u8, 83u8, 69u8]
}

/// "RESUME".
pub open spec fn resume_command() -> Seq<u8> {
    seq![82u8, 69u8, 83u8, 85u8, 77u8, 69u8]
}

/// "TERMINATE".
pub open spec fn terminate_command() -> Seq<u8> {
    seq![84u8, 69u8, 82u8, 77u8, 73u8, 78u8, 65u8, 84u8, 69u8]
}

fn is_command(data: &[u8], which: u8) -> (r: bool)
    ensures
        which == 0 ==> r == (data@ == statistics_command()),
        which == 1 ==> r == (data@ == pause_command()),
        which == 2 ==> r == (data@ == resume_command()),
        which == 3 ==> r == (data@ == terminate_command()),
{
    let v: Vec<u8> = if which == 0 {
        vec![83u8, 84u8, 65u8, 84u8, 73u8, 83u8, 84u8, 73u8, 67u8, 83u8]
    } else if which == 1 {
        vec![80u8, 65u8, 85u8, 83u8, 69u8]
    } else if which == 2 {
        vec![82u8, 69u8, 83u8, 85u8, 77u8, 69u8]
    } else {
        vec![84u8, 69u8, 82u8, 77u8, 73u8, 78u8, 65u8, 84u8, 69u8]
    };
    proof {
        if which == 0 {
            assert(v@ =~= statistics_command());
        } else if which == 1 {
            assert(v@ =~= pause_command());
        } else if which == 2 {
            assert(v@ =~= resume_command());
        } else if which == 3 {
            assert(v@ =~= terminate_command());
        }
    }
    crate::mechanism::bytes_equal(data, v.as_slice())
}

/// The eight statistics in the order STATISTICS reports them.
pub open spec fn stats_values(s: StatsProxy) -> Seq<u64> {
    seq![
        s.frontend.recv.count,
        s.frontend.recv.bytes,
        s.frontend.send.count,
        s.frontend.send.bytes,
        s.backend.recv.count,
        s.backend.recv.bytes,
        s.backend.send.count,
        s.backend.send.bytes,
    ]
}

/// The reply to STATISTICS: each statistic in eight bytes, all parts but
/// the last flagged as having more after them.
pub open spec fn stats_reply(s: StatsProxy) -> Seq<(Seq<u8>, i32)> {
    Seq::new(
        8,
        |i: int|
            (
                le64(stats_values(s)[i]),
                if i < 7 {
                    ZMQ_SNDMORE
                } else {
                    0i32
                },
            ),
    )
}

/// Reads one command from the control socket and acts on it: STATISTICS
/// is answered with the eight counters, PAUSE, RESUME and TERMINATE change
/// the state, anything else is ignored.  A control socket of the reply type
/// gets an empty reply.  An error when no command waits.
pub fn handle_control(control: &mut Socket, state: &mut ProxyState, stats: &StatsProxy) -> (r: Result<
    (),
    Error,
>)
    ensures
        final(control).spec_type() == old(control).spec_type(),
        old(control).spec_inbound().len() == 0 ==> r is Err && *final(state) == *old(state)
            && final(control).spec_sent() == old(control).spec_sent() && final(control).spec_inbound()
            == old(control).spec_inbound(),
        old(control).spec_inbound().len() > 0 ==> {
            let command = old(control).spec_inbound()[0].0;
            let stats_part = if command == statistics_command() {
                stats_reply(*stats)
            } else {
                Seq::empty()
            };
            let reply_part = if old(control).spec_type() == CONTROL_REPLY_TYPE {
                seq![(Seq::<u8>::empty(), 0i32)]
            } else {
                Seq::empty()
            };
            &&& r is Ok
            &&& *final(state) == control_state(command, *old(state))
            &&& final(control).spec_inbound() == old(control).spec_inbound().drop_first()
            &&& final(control).spec_sent() == old(control).spec_sent() + stats_part + reply_part
        },
{
    let mut msg = match Message::new() {
        Ok(m) => m,
        Err(e) => {
            return Err(e);
        },
    };
    match control.recv(&mut msg, ZMQ_DONTWAIT) {
        Ok(_) => {},
        Err(e) => {
            return Err(e);
        },
    }
    let ghost sent0 = control.spec_sent();
    let ghost command = msg.body();
    if is_command(msg.data(), 0) {
        let values: [u64; 8] = [
            stats.frontend.recv.count,
            stats.frontend.recv.bytes,
            stats.frontend.send.count,
            stats.frontend.send.bytes,
            stats.backend.recv.count,
            stats.backend.recv.bytes,
            stats.backend.send.count,
            stats.backend.send.bytes,
        ];
        let mut i: usize = 0;
        while i < 8
            invariant
                i <= 8,
                values@ == stats_values(*stats),
                control.spec_sent() == sent0 + stats_reply(*stats).take(i as int),
                control.spec_inbound() == old(control).spec_inbound().drop_first(),
                control.spec_type() == old(control).spec_type(),
            decreases 8 - i,
        {
            let mut part = match Message::new() {
                Ok(m) => m,
                Err(e) => {
                    return Err(e);
                },
            };
            part.set_u64(values[i]);
            let flags = if i < 7 {
                ZMQ_SNDMORE
            } else {
                0
            };
            let _ = control.send(&part, flags);
            i += 1;
            assert(control.spec_sent() =~= sent0 + stats_reply(*stats).take(i as int));
        }
        assert(stats_reply(*stats).take(8) =~= stats_reply(*stats));
    } else if is_command(msg.data(), 1) {
        *state = ProxyState::Paused;
    } else if is_command(msg.data(), 2) {
        *state = ProxyState::Active;
    } else if is_command(msg.data(), 3) {
        *state = ProxyState::Terminated;
    }
    proof {
        if command != statistics_command() {
            assert(control.spec_sent() =~= sent0 + Seq::<(Seq<u8>, i32)>::empty());
        }
    }
    let ghost sent1 = control.spec_sent();
    let kind = match control.get_sockopt(ZMQ_TYPE) {
        Ok(t) => t,
        Err(e) => {
            return Err(e);
        },
    };
    if kind == CONTROL_REPLY_TYPE {
        let _ = msg.init_size(0);
        assert(msg.body() =~= Seq::<u8>::empty());
        let _ = control.send(&msg, 0);
        assert(control.spec_sent() =~= sent1 + seq![(Seq::<u8>::empty(), 0i32)]);
    } else {
        assert(control.spec_sent() =~= sent1 + Seq::<(Seq<u8>, i32)>::empty());
    }
    Ok(())
}

/// Whether `front` and `back` are `front0` and `back0` after the first `i`
/// parts that `front0` had to read went, in order and unchanged, to `back`,
/// and the first `j` parts that `back0` had to read went to `front`.
pub open spec fn relayed_by(front0: Socket, back0: Socket, front: Socket, back: Socket, i: int, j: int) -> bool {
    &&& 0 <= i <= front0.spec_inbound().len()
    &&& 0 <= j <= back0.spec_inbound().len()
    &&& front.spec_inbound() == front0.spec_inbound().skip(i)
    &&& back.spec_inbound() == back0.spec_inbound().skip(j)
    &&& back.spec_sent() == back0.spec_sent() + forwarded(front0.spec_inbound().take(i))
    &&& front.spec_sent() == front0.spec_sent() + forwarded(back0.spec_inbound().take(j))
    &&& front.spec_type() == front0.spec_type()
    &&& back.spec_type() == back0.spec_type()
}

/// Whether the proxy relayed between `front0` and `back0` to give `front`
/// and `back`: each side sent on, in order, a first part of what the other
/// had to read, and nothing else.
pub open spec fn relayed(front0: Socket, back0: Socket, front: Socket, back: Socket) -> bool {
    exists|i: int, j: int| #[trigger] relayed_by(front0, back0, front, back, i, j)
}

proof fn lemma_forwarded_concat(a: Seq<(Seq<u8>, bool)>, b: Seq<(Seq<u8>, bool)>)
    ensures
        forwarded(a + b) == forwarded(a) + forwarded(b),
{
    assert(forwarded(a + b) =~= forwarded(a) + forwarded(b));
}

/// A burst of `n` parts from what is left after the first `i`.
proof fn lemma_relay_step(all: Seq<(Seq<u8>, bool)>, sent0: Seq<(Seq<u8>, i32)>, i: int, n: int)
    requires
        0 <= i,
        0 <= n,
        i + n <= all.len(),
    ensures
        all.skip(i).skip(n) == all.skip(i + n),
        sent0 + forwarded(all.take(i)) + forwarded(all.skip(i).take(n)) == sent0 + forwarded(all.take(i + n)),
{
    assert(all.skip(i).skip(n) =~= all.skip(i + n));
    assert(all.take(i) + all.skip(i).take(n) =~= all.take(i + n));
    lemma_forwarded_concat(all.take(i), all.skip(i).take(n));
    assert(sent0 + forwarded(all.take(i)) + forwarded(all.skip(i).take(n)) =~= sent0 + (forwarded(
        all.take(i),
    ) + forwarded(all.skip(i).take(n))));
}

/// The commands waiting on a control socket, where there is one.
pub open spec fn commands(control: Option<Socket>) -> Option<Seq<Seq<u8>>> {
    match control {
        Some(c) => Some(c.spec_inbound().map_values(|f: (Seq<u8>, bool)| f.0)),
        None => None,
    }
}

/// How the proxy runs from `state` with the control commands `cmds` (none
/// without a control socket) and the parts `front` and `back` waiting on
/// either side: whether it ends with `Ok`, how many parts it takes from the
/// front and from the back, and how many commands it reads. Each turn reads
/// a command (an error when none waits), then, while active, forwards a
/// burst from the front and one from the back; a burst that finds no whole
/// message ends the run with an error, and TERMINATE ends it with `Ok`.
pub open spec fn proxy_run(
    cmds: Option<Seq<Seq<u8>>>,
    front: Seq<(Seq<u8>, bool)>,
    back: Seq<(Seq<u8>, bool)>,
    state: ProxyState,
) -> (bool, int, int, int)
    decreases (match cmds {
        Some(c) => c.len(),
        None => 0,
    }) + front.len() + back.len(),
{
    if state == ProxyState::Terminated {
        (true, 0, 0, 0)
    } else if cmds matches Some(c) && c.len() == 0 {
        (false, 0, 0, 0)
    } else {
        let state2 = match cmds {
            Some(c) => control_state(c[0], state),
            None => state,
        };
        let cmds2 = match cmds {
            Some(c) => Some(c.drop_first()),
            None => None,
        };
        let read: int = if cmds is Some { 1 } else { 0 };
        if state2 == ProxyState::Active {
            let f = forward_outcome(front, 0, 0);
            let b = forward_outcome(back, 0, 0);
            proof {
                lemma_forward_progress(front);
                lemma_forward_progress(back);
            }
            if !f.0 {
                (false, f.1 as int, 0, read)
            } else if !b.0 {
                (false, f.1 as int, b.1 as int, read)
            } else {
                let r = proxy_run(cmds2, front.skip(f.1 as int), back.skip(b.1 as int), state2);
                (r.0, f.1 + r.1, b.1 + r.2, read + r.3)
            }
        } else if cmds is None {
            (false, 0, 0, 0)
        } else {
            let r = proxy_run(cmds2, front, back, state2);
            (r.0, r.1, r.2, read + r.3)
        }
    }
}

/// The parts the proxy copies to its capture socket when it runs as
/// `proxy_run` says: turn by turn, the parts of the burst it takes from the
/// front, then those of the burst it takes from the back, failed bursts
/// included.
pub open spec fn proxy_captured(
    cmds: Option<Seq<Seq<u8>>>,
    front: Seq<(Seq<u8>, bool)>,
    back: Seq<(Seq<u8>, bool)>,
    state: ProxyState,
) -> Seq<(Seq<u8>, bool)>
    decreases (match cmds {
        Some(c) => c.len(),
        None => 0,
    }) + front.len() + back.len(),
{
    if state == ProxyState::Terminated {
        Seq::empty()
    } else if cmds matches Some(c) && c.len() == 0 {
        Seq::empty()
    } else {
        let state2 = match cmds {
            Some(c) => control_state(c[0], state),
            None => state,
        };
        let cmds2 = match cmds {
            Some(c) => Some(c.drop_first()),
            None => None,
        };
        if state2 == ProxyState::Active {
            let f = forward_outcome(front, 0, 0);
            let b = forward_outcome(back, 0, 0);
            proof {
                lemma_forward_progress(front);
                lemma_forward_progress(back);
            }
            if !f.0 {
                front.take(f.1 as int)
            } else if !b.0 {
                front.take(f.1 as int) + back.take(b.1 as int)
            } else {
                front.take(f.1 as int) + back.take(b.1 as int) + proxy_captured(
                    cmds2,
                    front.skip(f.1 as int),
                    back.skip(b.1 as int),
                    state2,
                )
            }
        } else if cmds is None {
            Seq::empty()
        } else {
            proxy_captured(cmds2, front, back, state2)
        }
    }
}

proof fn lemma_captured_concat(a: Seq<(Seq<u8>, bool)>, b: Seq<(Seq<u8>, bool)>)
    ensures
        captured(a + b) == captured(a) + captured(b),
{
    assert(captured(a + b) =~= captured(a) + captured(b));
}

proof fn lemma_capture_sent_chain(
    a: Option<Socket>,
    b: Option<Socket>,
    c: Option<Socket>,
    x: Seq<(Seq<u8>, bool)>,
    y: Seq<(Seq<u8>, bool)>,
)
    requires
        capture_sent(a, b, captured(x)),
        capture_sent(b, c, captured(y)),
    ensures
        capture_sent(a, c, captured(x + y)),
{
    lemma_captured_concat(x, y);
    match a {
        Some(s) => {
            let s3 = c->Some_0;
            let s2 = b->Some_0;
            assert(s3.spec_sent() =~= s.spec_sent() + captured(x + y));
        },
        None => {},
    }
}

proof fn lemma_proxy_run_ok(
    cmds: Option<Seq<Seq<u8>>>,
    front: Seq<(Seq<u8>, bool)>,
    back: Seq<(Seq<u8>, bool)>,
    state: ProxyState,
)
    requires
        state != ProxyState::Terminated,
        proxy_run(cmds, front, back, state).0,
    ensures
        cmds matches Some(c) && exists|k: int| 0 <= k < c.len() && #[trigger] c[k] == terminate_command(),
    decreases (match cmds {
        Some(c) => c.len(),
        None => 0,
    }) + front.len() + back.len(),
{
    lemma_forward_progress(front);
    lemma_forward_progress(back);
    if cmds is None {
        let f = forward_outcome(front, 0, 0);
        let b = forward_outcome(back, 0, 0);
        if f.0 && b.0 {
            assert(front.skip(f.1 as int).len() == front.len() - f.1);
            assert(back.skip(b.1 as int).len() == back.len() - b.1);
            lemma_proxy_run_ok(None, front.skip(f.1 as int), back.skip(b.1 as int), state);
        }
        assert(false);
    } else {
        let c = cmds->Some_0;
        let state2 = control_state(c[0], state);
        let cmds2 = Some(c.drop_first());
        if state2 == ProxyState::Terminated {
            assert(c[0] == terminate_command());
        } else {
            let f = forward_outcome(front, 0, 0);
            let b = forward_outcome(back, 0, 0);
            if state2 == ProxyState::Active {
                assert(f.0 && b.0);
                let r = proxy_run(cmds2, front.skip(f.1 as int), back.skip(b.1 as int), state2);
                assert(proxy_run(cmds, front, back, state).0 == r.0);
                assert(front.skip(f.1 as int).len() == front.len() - f.1);
                assert(back.skip(b.1 as int).len() == back.len() - b.1);
                lemma_proxy_run_ok(cmds2, front.skip(f.1 as int), back.skip(b.1 as int), state2);
            } else {
                lemma_proxy_run_ok(cmds2, front, back, state2);
            }
            let k = choose|k: int| 0 <= k < c.drop_first().len() && #[trigger] c.drop_first()[k] == terminate_command();
            assert(c[k + 1] == terminate_command());
        }
    }
}

/// The proxy ends with `Ok` only where its control socket delivered a
/// TERMINATE command; without a control socket it never does.
pub proof fn law_proxy_ok_only_after_terminate(
    cmds: Option<Seq<Seq<u8>>>,
    front: Seq<(Seq<u8>, bool)>,
    back: Seq<(Seq<u8>, bool)>,
)
    requires
        proxy_run(cmds, front, back, ProxyState::Active).0,
    ensures
        cmds matches Some(c) && exists|k: int| 0 <= k < c.len() && #[trigger] c[k] == terminate_command(),
{
    lemma_proxy_run_ok(cmds, front, back, ProxyState::Active);
}

/// Without a control socket the proxy forwards until one side has nothing
/// left to read, and ends with an error.
pub proof fn law_proxy_runs_until_a_side_is_empty(front: Seq<(Seq<u8>, bool)>, back: Seq<(Seq<u8>, bool)>)
    ensures
        ({
            let r = proxy_run(None, front, back, ProxyState::Active);
            &&& !r.0
            &&& 0 <= r.1 <= front.len()
            &&& 0 <= r.2 <= back.len()
            &&& r.3 == 0
            &&& (r.1 == front.len() || r.2 == back.len())
        }),
    decreases front.len() + back.len(),
{
    lemma_forward_progress(front);
    lemma_forward_progress(back);
    lemma_forward_outcome_bound(front, 0, 0);
    lemma_forward_outcome_bound(back, 0, 0);
    let f = forward_outcome(front, 0, 0);
    let b = forward_outcome(back, 0, 0);
    if f.0 && b.0 {
        law_proxy_runs_until_a_side_is_empty(front.skip(f.1 as int), back.skip(b.1 as int));
    }
}

proof fn lemma_paused_takes_nothing(c: Seq<Seq<u8>>, front: Seq<(Seq<u8>, bool)>, back: Seq<(Seq<u8>, bool)>)
    requires
        forall|k: int| 0 <= k < c.len() ==> #[trigger] c[k] != resume_command(),
    ensures
        proxy_run(Some(c), front, back, ProxyState::Paused).1 == 0,
        proxy_run(Some(c), front, back, ProxyState::Paused).2 == 0,
    decreases c.len(),
{
    if c.len() > 0 {
        assert(c[0] != resume_command());
        assert forall|k: int| 0 <= k < c.drop_first().len() implies #[trigger] c.drop_first()[k]
            != resume_command() by {
            assert(c.drop_first()[k] == c[k + 1]);
        }
        let state2 = control_state(c[0], ProxyState::Paused);
        if state2 == ProxyState::Paused {
            lemma_paused_takes_nothing(c.drop_first(), front, back);
        } else {
            assert(state2 == ProxyState::Terminated);
            assert(proxy_run(Some(c.drop_first()), front, back, state2) == (true, 0int, 0int, 0int));
        }
    }
}

/// A paused proxy forwards nothing from either side until a RESUME command
/// comes: with no RESUME among the commands, it takes no part.
pub proof fn law_paused_forwards_nothing(c: Seq<Seq<u8>>, front: Seq<(Seq<u8>, bool)>, back: Seq<(Seq<u8>, bool)>)
    requires
        forall|k: int| 0 <= k < c.len() ==> #[trigger] c[k] != resume_command(),
    ensures
        proxy_run(Some(c), front, back, ProxyState::Paused).1 == 0,
        proxy_run(Some(c), front, back, ProxyState::Paused).2 == 0,
{
    lemma_paused_takes_nothing(c, front, back);
}

/// Runs the proxy with no control socket: forwards between `frontend` and
/// `backend` until a socket runs dry, which ends it with an error.
pub fn proxy(frontend: &mut Socket, backend: &mut Socket, capture: &mut Option<Socket>) -> (r:
    Result<(), Error>)
    ensures
        r is Err,
        ({
            let run = proxy_run(None, old(frontend).spec_inbound(), old(backend).spec_inbound(), ProxyState::Active);
            relayed_by(*old(frontend), *old(backend), *final(frontend), *final(backend), run.1, run.2)
        }),
        final(frontend).spec_inbound().len() == 0 || final(backend).spec_inbound().len() == 0,
        capture_sent(
            *old(capture),
            *final(capture),
            captured(
                proxy_captured(None, old(frontend).spec_inbound(), old(backend).spec_inbound(), ProxyState::Active),
            ),
        ),
        relayed(*old(frontend), *old(backend), *final(frontend), *final(backend)),
{
    let mut control: Option<Socket> = None;
    proof {
        law_proxy_runs_until_a_side_is_empty(frontend.spec_inbound(), backend.spec_inbound());
    }
    proxy_steerable(frontend, backend, capture, &mut control)
}

/// Runs the proxy: reads a command from `control` if there is one, and
/// while active forwards a burst each way.  It stops with `Ok` once a
/// TERMINATE command is read, and with an error as soon as a socket it reads
/// from has nothing for it; `proxy_run` says how far it gets.
pub fn proxy_steerable(
    frontend: &mut Socket,
    backend: &mut Socket,
    capture: &mut Option<Socket>,
    control: &mut Option<Socket>,
) -> (r: Result<(), Error>)
    ensures
        ({
            let run = proxy_run(
                commands(*old(control)),
                old(frontend).spec_inbound(),
                old(backend).spec_inbound(),
                ProxyState::Active,
            );
            &&& (r is Ok <==> run.0)
            &&& relayed_by(*old(frontend), *old(backend), *final(frontend), *final(backend), run.1, run.2)
            &&& match *old(control) {
                Some(c) => *final(control) matches Some(c2) && c2.spec_inbound() == c.spec_inbound().skip(
                    run.3,
                ) && c2.spec_type() == c.spec_type(),
                None => *final(control) is None,
            }
        }),
        capture_sent(
            *old(capture),
            *final(capture),
            captured(
                proxy_captured(
                    commands(*old(control)),
                    old(frontend).spec_inbound(),
                    old(backend).spec_inbound(),
                    ProxyState::Active,
                ),
            ),
        ),
        *old(control) is None ==> r is Err,
        relayed(*old(frontend), *old(backend), *final(frontend), *final(backend)),
{
    let ghost cap0 = *capture;
    let ghost cap_all = proxy_captured(
        commands(*control),
        frontend.spec_inbound(),
        backend.spec_inbound(),
        ProxyState::Active,
    );
    let ghost mut done: Seq<(Seq<u8>, bool)> = Seq::empty();
    proof {
        assert(captured(done) =~= Seq::<(Seq<u8>, i32)>::empty());
        match cap0 {
            Some(c) => {
                assert(c.spec_sent() + Seq::<(Seq<u8>, i32)>::empty() =~= c.spec_sent());
            },
            None => {},
        }
        assert(cap_all =~= done + cap_all);
    }
    let ghost f0 = *frontend;
    let ghost c0 = *control;
    let ghost run0 = proxy_run(commands(c0), f0.spec_inbound(), backend.spec_inbound(), ProxyState::Active);
    let ghost mut c_read: int = 0;
    let ghost b0 = *backend;
    let ghost mut i: int = 0;
    let ghost mut j: int = 0;
    assert(relayed_by(f0, b0, *frontend, *backend, 0, 0)) by {
        assert(f0.spec_inbound().skip(0) =~= f0.spec_inbound());
        assert(b0.spec_inbound().skip(0) =~= b0.spec_inbound());
        assert(forwarded(f0.spec_inbound().take(0)) =~= Seq::<(Seq<u8>, i32)>::empty());
        assert(forwarded(b0.spec_inbound().take(0)) =~= Seq::<(Seq<u8>, i32)>::empty());
        assert(b0.spec_sent() + Seq::<(Seq<u8>, i32)>::empty() =~= b0.spec_sent());
        assert(f0.spec_sent() + Seq::<(Seq<u8>, i32)>::empty() =~= f0.spec_sent());
    }
    let mut msg = match Message::new() {
        Ok(m) => m,
        Err(e) => {
            return Err(e);
        },
    };
    let mut state = ProxyState::Active;
    let mut stats = StatsProxy::new();
    let ghost has_control = *control is Some;
    let mut ctl_len: usize = match control {
        Some(c) => c.pending(),
        None => 0,
    };
    proof {
        assert(run0 == proxy_run(commands(*control), frontend.spec_inbound(), backend.spec_inbound(), state));
        match c0 {
            Some(c) => {
                assert(c.spec_inbound().skip(0) =~= c.spec_inbound());
            },
            None => {},
        }
    }
    while state != ProxyState::Terminated
        invariant
            has_control == (*control is Some),
            has_control == (*old(control) is Some),
            !has_control ==> state == ProxyState::Active,
            relayed_by(f0, b0, *frontend, *backend, i, j),
            f0 == *old(frontend),
            b0 == *old(backend),
            c0 == *old(control),
            cap0 == *old(capture),
            capture_sent(cap0, *capture, captured(done)),
            cap_all == proxy_captured(commands(c0), f0.spec_inbound(), b0.spec_inbound(), ProxyState::Active),
            cap_all == done + proxy_captured(commands(*control), frontend.spec_inbound(), backend.spec_inbound(), state),
            0 <= c_read,
            run0 == proxy_run(commands(c0), f0.spec_inbound(), b0.spec_inbound(), ProxyState::Active),
            ({
                let rest = proxy_run(commands(*control), frontend.spec_inbound(), backend.spec_inbound(), state);
                run0 == (rest.0, i + rest.1, j + rest.2, c_read + rest.3)
            }),
            match c0 {
                Some(c) => *control matches Some(cc) && c_read <= c.spec_inbound().len()
                    && cc.spec_inbound() == c.spec_inbound().skip(c_read) && cc.spec_type() == c.spec_type(),
                None => *control is None,
            },
            match *control {
                Some(c) => ctl_len == c.spec_inbound().len(),
                None => ctl_len == 0,
            },
        decreases ctl_len + frontend.spec_inbound().len() + backend.spec_inbound().len(),
    {
        let ghost measure = ctl_len + frontend.spec_inbound().len() + backend.spec_inbound().len();
        let ghost big_f = frontend.spec_inbound();
        let ghost big_b = backend.spec_inbound();
        let ghost st = state;
        let ghost cm = commands(*control);
        let ghost whole = proxy_run(cm, big_f, big_b, st);
        let ghost pc_whole = proxy_captured(cm, big_f, big_b, st);
        let ghost read: int = if has_control { 1 } else { 0 };
        let ghost inb = if has_control {
            (*control)->Some_0.spec_inbound()
        } else {
            Seq::empty()
        };
        match control {
            Some(c) => {
                let rc = handle_control(c, &mut state, &stats);
                if rc.is_err() {
                    proof {
                        assert(cm == Some(Seq::<Seq<u8>>::empty())) by {
                            assert(inb.map_values(|f: (Seq<u8>, bool)| f.0) =~= Seq::<Seq<u8>>::empty());
                        }
                        assert(whole == (false, 0int, 0int, 0int));
                        assert(pc_whole == Seq::<(Seq<u8>, bool)>::empty());
                        assert(cap_all =~= done);
                    }
                    assert(relayed_by(f0, b0, *frontend, *backend, i, j));
                    return rc;
                }
                ctl_len = c.pending();
            },
            None => {},
        }
        proof {
            if has_control {
                let now = (*control)->Some_0;
                assert(cm->Some_0[0] == inb[0].0);
                assert(commands(*control) == Some(cm->Some_0.drop_first())) by {
                    assert(now.spec_inbound().map_values(|f: (Seq<u8>, bool)| f.0) =~= cm->Some_0.drop_first());
                }
                let cc = c0->Some_0;
                assert(now.spec_inbound() == inb.drop_first());
                assert(inb == cc.spec_inbound().skip(c_read));
                assert(now.spec_inbound() =~= cc.spec_inbound().skip(c_read + 1));
                c_read = c_read + 1;
            }
        }
        let ghost cm2 = commands(*control);
        let ghost st2 = state;
        proof {
            assert(cm2 == match cm {
                Some(c) => Some(c.drop_first()),
                None => None,
            });
            assert(st2 == match cm {
                Some(c) => control_state(c[0], st),
                None => st,
            });
        }
        let ghost after_control = ctl_len + frontend.spec_inbound().len() + backend.spec_inbound().len();
        assert(has_control ==> after_control < measure);
        if state == ProxyState::Active {
            let ghost front0 = frontend.spec_inbound();
            let ghost back0 = backend.spec_inbound();
            let ghost cap_before = *capture;
            let rc = forward(
                frontend,
                backend,
                capture,
                &mut msg,
                &mut stats.frontend.recv,
                &mut stats.backend.send,
            );
            proof {
                lemma_forward_progress(front0);
                let n = forward_outcome(front0, 0, 0).1 as int;
                lemma_relay_step(f0.spec_inbound(), b0.spec_sent(), i, n);
                i = i + n;
                lemma_capture_sent_chain(cap0, cap_before, *capture, done, front0.take(n));
                done = done + front0.take(n);
                assert(relayed_by(f0, b0, *frontend, *backend, i, j));
            }
            if rc.is_err() {
                proof {
                    assert(whole == (false, forward_outcome(big_f, 0, 0).1 as int, 0int, read));
                    assert(pc_whole == big_f.take(forward_outcome(big_f, 0, 0).1 as int));
                    assert(cap_all =~= done);
                }
                assert(relayed_by(f0, b0, *frontend, *backend, i, j));
                return rc;
            }
            let ghost cap_mid = *capture;
            let rc = forward(
                backend,
                frontend,
                capture,
                &mut msg,
                &mut stats.backend.recv,
                &mut stats.frontend.send,
            );
            proof {
                lemma_forward_progress(back0);
                let n = forward_outcome(back0, 0, 0).1 as int;
                lemma_relay_step(b0.spec_inbound(), f0.spec_sent(), j, n);
                j = j + n;
                lemma_capture_sent_chain(cap0, cap_mid, *capture, done, back0.take(n));
                done = done + back0.take(n);
                assert(relayed_by(f0, b0, *frontend, *backend, i, j));
            }
            if rc.is_err() {
                proof {
                    assert(whole == (
                        false,
                        forward_outcome(big_f, 0, 0).1 as int,
                        forward_outcome(big_b, 0, 0).1 as int,
                        read,
                    ));
                    let n1 = forward_outcome(big_f, 0, 0).1 as int;
                    let n2 = forward_outcome(big_b, 0, 0).1 as int;
                    assert(pc_whole == big_f.take(n1) + big_b.take(n2));
                    assert(front0 == big_f && back0 == big_b);
                    assert(cap_all =~= done);
                }
                assert(relayed_by(f0, b0, *frontend, *backend, i, j));
                return rc;
            }
            proof {
                let rest = proxy_run(cm2, frontend.spec_inbound(), backend.spec_inbound(), state);
                assert(whole == (
                    rest.0,
                    forward_outcome(big_f, 0, 0).1 + rest.1,
                    forward_outcome(big_b, 0, 0).1 + rest.2,
                    read + rest.3,
                ));
                let n1 = forward_outcome(big_f, 0, 0).1 as int;
                let n2 = forward_outcome(big_b, 0, 0).1 as int;
                let prest = proxy_captured(cm2, frontend.spec_inbound(), backend.spec_inbound(), state);
                assert(pc_whole == big_f.take(n1) + big_b.take(n2) + prest);
            }
        } else {
            proof {
                let rest = proxy_run(cm2, frontend.spec_inbound(), backend.spec_inbound(), state);
                assert(whole == (rest.0, rest.1, rest.2, read + rest.3));
                assert(pc_whole == proxy_captured(cm2, frontend.spec_inbound(), backend.spec_inbound(), state));
            }
        }
    }
    proof {
        assert(proxy_run(commands(*control), frontend.spec_inbound(), backend.spec_inbound(), state) == (
            true,
            0int,
            0int,
            0int,
        ));
        assert(proxy_captured(commands(*control), frontend.spec_inbound(), backend.spec_inbound(), state)
            == Seq::<(Seq<u8>, bool)>::empty());
        assert(cap_all =~= done);
    }
    Ok(())
}

/// A forward that succeeds takes at least one part.
pub proof fn lemma_forward_progress(frames: Seq<(Seq<u8>, bool)>)
    ensures
        forward_outcome(frames, 0, 0).1 <= frames.len(),
        forward_outcome(frames, 0, 0).0 ==> forward_outcome(frames, 0, 0).1 >= 1,
{
    lemma_forward_outcome_bound(frames, 0, 0);
    if frames.len() > 0 {
        if frames[0].1 {
            lemma_forward_outcome_bound(frames, 0, 1);
        } else {
            lemma_forward_outcome_bound(frames, 1, 1);
        }
    }
}

/// The STATISTICS reply is eight parts, each a counter in eight
/// little-endian bytes: the frontend's received messages and bytes, its
/// sent messages and bytes, then the same four for the backend; every part
/// but the last is flagged as having more after it.
pub proof fn law_statistics_reply_order(s: StatsProxy)
    ensures
        stats_reply(s).len() == 8,
        stats_reply(s)[0] == (le64(s.frontend.recv.count), ZMQ_SNDMORE),
        stats_reply(s)[1] == (le64(s.frontend.recv.bytes), ZMQ_SNDMORE),
        stats_reply(s)[2] == (le64(s.frontend.send.count), ZMQ_SNDMORE),
        stats_reply(s)[3] == (le64(s.frontend.send.bytes), ZMQ_SNDMORE),
        stats_reply(s)[4] == (le64(s.backend.recv.count), ZMQ_SNDMORE),
        stats_reply(s)[5] == (le64(s.backend.recv.bytes), ZMQ_SNDMORE),
        stats_reply(s)[6] == (le64(s.backend.send.count), ZMQ_SNDMORE),
        stats_reply(s)[7] == (le64(s.backend.send.bytes), 0i32),
{
}

/// A counter is written least significant byte first: byte `i` of its
/// eight is the counter divided by 256^i, modulo 256.
pub proof fn law_le64_little_endian(n: u64)
    ensures
        le64(n).len() == 8,
        le64(n)[0] == ((n / 0x1) % 0x100) as u8,
        le64(n)[1] == ((n / 0x100) % 0x100) as u8,
        le64(n)[2] == ((n / 0x10000) % 0x100) as u8,
        le64(n)[3] == ((n / 0x1000000) % 0x100) as u8,
        le64(n)[4] == ((n / 0x100000000) % 0x100) as u8,
        le64(n)[5] == ((n / 0x10000000000) % 0x100) as u8,
        le64(n)[6] == ((n / 0x1000000000000) % 0x100) as u8,
        le64(n)[7] == (n / 0x100000000000000) as u8,
{
    assert(((n >> 0u64) & 0xff) as u8 == ((n / 0x1) % 0x100) as u8) by (bit_vector);
    assert(((n >> 8u64) & 0xff) as u8 == ((n / 0x100) % 0x100) as u8) by (bit_vector);
    assert(((n >> 16u64) & 0xff) as u8 == ((n / 0x10000) % 0x100) as u8) by (bit_vector);
    assert(((n >> 24u64) & 0xff) as u8 == ((n / 0x1000000) % 0x100) as u8) by (bit_vector);
    assert(((n >> 32u64) & 0xff) as u8 == ((n / 0x100000000) % 0x100) as u8) by (bit_vector);
    assert(((n >> 40u64) & 0xff) as u8 == ((n / 0x10000000000) % 0x100) as u8) by (bit_vector);
    assert(((n >> 48u64) & 0xff) as u8 == ((n / 0x1000000000000) % 0x100) as u8) by (bit_vector);
    assert(((n >> 56u64) & 0xff) as u8 == (n / 0x100000000000000) as u8) by (bit_vector);
}

} // verus!
