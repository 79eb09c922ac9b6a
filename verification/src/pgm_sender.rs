use crate::pgm_socket::{Options, PgmSocket};
use crate::sha1::be64_bytes;
use std::collections::VecDeque;
use vstd::prelude::*;

verus! {

/// The timer that holds sending back while the rate limit applies.
pub const TX_TIMER_ID: i32 = 0xa0;

/// The timer that holds reading back repair requests.
pub const RX_TIMER_ID: i32 = 0xa1;

/// Would block: try again later.
pub const EAGAIN: i32 = 11;

/// Out of memory: the rate limit holds the data back for now.
pub const ENOMEM: i32 = 12;

/// A message the session hands over to be sent: its body and whether more
/// parts of it follow.
pub struct PgmMsg {
    data: Vec<u8>,
    more: bool,
}

impl PgmMsg {
    #[verifier::type_invariant]
    spec fn length_fits(self) -> bool {
        self.data@.len() < u64::MAX
    }

    pub closed spec fn body(&self) -> Seq<u8> {
        self.data@
    }

    pub closed spec fn spec_more(&self) -> bool {
        self.more
    }

    pub fn new(data: Vec<u8>, more: bool) -> (m: Self)
        requires
            data@.len() < u64::MAX,
        ensures
            m.body() == data@,
            m.spec_more() == more,
    {
        PgmMsg { data, more }
    }
}

/// The ZMTP/1.0 frame of a message: its size (the body and the flags byte)
/// in one byte below 255, else 0xff and the size in eight big-endian bytes;
/// the flags byte, 1 when more parts follow; the body.
pub open spec fn v1_frame(body: Seq<u8>, more: bool) -> Seq<u8> {
    let flags: u8 = if more { 1 } else { 0 };
    let size = body.len() + 1;
    if size < 255 {
        seq![size as u8, flags] + body
    } else {
        seq![0xffu8] + be64_bytes(size as u64) + seq![flags] + body
    }
}

/// Turns messages into the ZMTP/1.0 byte stream and hands the stream out
/// piece by piece.
pub struct V1Encoder {
    pending: Vec<u8>,
}

impl V1Encoder {
    /// The bytes loaded and not handed out yet.
    pub closed spec fn pending(&self) -> Seq<u8> {
        self.pending@
    }

    pub fn new(_bufsize: usize) -> (e: Self)
        ensures
            e.pending() == Seq::<u8>::empty(),
    {
        V1Encoder { pending: Vec::new() }
    }

    /// Appends the frame of `msg` to the stream.
    pub fn load_msg(&mut self, msg: PgmMsg)
        ensures
            final(self).pending() == old(self).pending() + v1_frame(msg.body(), msg.spec_more()),
    {
        proof {
            use_type_invariant(&msg);
        }
        let ghost body = msg.data@;
        let len = msg.data.len();
        let flags: u8 = if msg.more { 1 } else { 0 };
        let mut frame: Vec<u8> = Vec::new();
        if len < 254 {
            frame.push((len + 1) as u8);
            frame.push(flags);
        } else {
            let size: u64 = len as u64 + 1;
            frame.push(0xff);
            frame.push((size >> 56u64) as u8);
            frame.push((size >> 48u64) as u8);
            frame.push((size >> 40u64) as u8);
            frame.push((size >> 32u64) as u8);
            frame.push((size >> 24u64) as u8);
            frame.push((size >> 16u64) as u8);
            frame.push((size >> 8u64) as u8);
            frame.push((size >> 0u64) as u8);
            frame.push(flags);
            assert(frame@ =~= seq![0xffu8] + be64_bytes(size) + seq![flags]);
        }
        let mut data = msg.data;
        frame.append(&mut data);
        assert(frame@ =~= v1_frame(body, msg.more));
        self.pending.append(&mut frame);
    }

    /// Writes as much of the stream as fits into `out` from `start` on;
    /// returns how many bytes it wrote.
    pub fn encode(&mut self, out: &mut Vec<u8>, start: usize) -> (n: usize)
        requires
            start <= old(out)@.len(),
        ensures
            n == (if old(self).pending().len() < old(out)@.len() - start {
                old(self).pending().len()
            } else {
                (old(out)@.len() - start) as nat
            }),
            final(out)@ == old(out)@.take(start as int) + old(self).pending().take(n as int)
                + old(out)@.skip(start + n),
            final(self).pending() == old(self).pending().skip(n as int),
    {
        let room = out.len() - start;
        let n = if self.pending.len() < room { self.pending.len() } else { room };
        let mut i: usize = 0;
        while i < n
            invariant
                n <= self.pending@.len(),
                start + n <= out.len(),
                i <= n,
                out@.len() == old(out)@.len(),
                self.pending@ == old(self).pending(),
                out@ =~= old(out)@.take(start as int) + self.pending@.take(i as int)
                    + old(out)@.skip(start + i),
            decreases n - i,
        {
            out.set(start + i, self.pending[i]);
            i = i + 1;
        }
        let rest = self.pending.split_off(n);
        self.pending = rest;
        n
    }
}

/// The stream the encoder hands out when it held `pending` and then took
/// the frames of the first `k` messages of `q`.
#[verifier::opaque]
pub open spec fn stream(pending: Seq<u8>, q: Seq<PgmMsg>, k: int) -> Seq<u8>
    decreases k,
{
    if k <= 0 {
        pending
    } else {
        stream(pending, q, k - 1) + v1_frame(q[k - 1].body(), q[k - 1].spec_more())
    }
}

/// How filling a packet with room for `cap` bytes goes on once `k` messages
/// of the session's queue `q` were pulled, `bytes` written, the offset of the
/// first message that starts in the packet is `offset` (0xffff for none
/// yet) and the last message pulled said `more`: the messages pulled in
/// all, the bytes written, the offset and the last more flag.
#[verifier::opaque]
pub open spec fn fill(
    pending: Seq<u8>,
    q: Seq<PgmMsg>,
    cap: int,
    k: int,
    bytes: int,
    offset: u16,
    more: bool,
) -> (int, int, u16, bool)
    decreases q.len() - k,
{
    if bytes >= cap {
        (k, bytes, offset, more)
    } else {
        let offset2 = if !more && offset == 0xffff { bytes as u16 } else { offset };
        if k < 0 || k >= q.len() {
            (k, bytes, offset2, more)
        } else {
            let total = stream(pending, q, k + 1).len() as int;
            fill(pending, q, cap, k + 1, if total < cap { total } else { cap }, offset2, q[k].spec_more())
        }
    }
}

/// What a PGM sender asks of the poller it runs in.
#[derive(PartialEq, Eq, Debug, Clone, Copy, Structural)]
pub enum PgmAction {
    /// Start watching the descriptor (its handle is the descriptor).
    AddFd(i32),
    /// Stop watching it.
    RmFd(i32),
    SetPollin(i32),
    SetPollout(i32),
    ResetPollout(i32),
    /// Call back after the timeout (ms) with the timer id.
    AddTimer(i64, i32),
    CancelTimer(i32),
}

/// Sends the messages of a session over PGM, several to a packet; each
/// packet starts with the offset of the first message that begins in it.
pub struct PgmSender {
    has_tx_timer: bool,
    has_rx_timer: bool,
    plugged: bool,
    encoder: V1Encoder,
    more_flag: bool,
    pgm_socket: PgmSocket,
    handle: i32,
    uplink_handle: i32,
    rdata_notify_handle: i32,
    pending_notify_handle: i32,
    out_buffer: Vec<u8>,
    out_buffer_size: usize,
    write_size: usize,
}

impl PgmSender {
    pub closed spec fn wf(&self) -> bool {
        &&& self.out_buffer@.len() == self.out_buffer_size
        &&& self.write_size <= self.out_buffer_size
    }

    pub closed spec fn spec_has_tx_timer(&self) -> bool {
        self.has_tx_timer
    }

    pub closed spec fn spec_has_rx_timer(&self) -> bool {
        self.has_rx_timer
    }

    pub closed spec fn spec_plugged(&self) -> bool {
        self.plugged
    }

    /// The encoded bytes not yet put into a packet.
    pub closed spec fn pending(&self) -> Seq<u8> {
        self.encoder.pending()
    }

    pub closed spec fn spec_more_flag(&self) -> bool {
        self.more_flag
    }

    pub closed spec fn socket(&self) -> PgmSocket {
        self.pgm_socket
    }

    /// The downlink, uplink, repair-data and pending-data handles.
    pub closed spec fn handles(&self) -> (i32, i32, i32, i32) {
        (self.handle, self.uplink_handle, self.rdata_notify_handle, self.pending_notify_handle)
    }

    pub closed spec fn spec_handle(&self) -> i32 {
        self.handle
    }

    pub closed spec fn buffer(&self) -> Seq<u8> {
        self.out_buffer@
    }

    pub closed spec fn spec_buffer_size(&self) -> nat {
        self.out_buffer_size as nat
    }

    /// How much of the buffer is a packet waiting to go out.
    pub closed spec fn spec_write_size(&self) -> nat {
        self.write_size as nat
    }
}

/// What `out_event` does when the sender was `s` but with `had_tx` for its
/// send timer and the session queue was `q`: it leaves the sender as `t`,
/// the queue as `q2` and asks for `actions`. With no packet waiting, it
/// fills one from the queue; if that finds nothing, it stops watching for
/// room; else it stops the send timer and sends the packet, which the
/// socket takes whole.
pub open spec fn out_event_post(
    s: PgmSender,
    had_tx: bool,
    q: Seq<PgmMsg>,
    t: PgmSender,
    q2: Seq<PgmMsg>,
    actions: Seq<PgmAction>,
) -> bool {
    let f = fill(s.pending(), q, s.spec_buffer_size() - 2, 0, 0, 0xffff, s.spec_more_flag());
    let fills = s.spec_write_size() == 0;
    &&& t.wf()
    &&& t.spec_write_size() == 0
    &&& t.spec_has_rx_timer() == s.spec_has_rx_timer()
    &&& t.spec_plugged() == s.spec_plugged()
    &&& t.handles() == s.handles()
    &&& t.spec_buffer_size() == s.spec_buffer_size()
    &&& t.socket() == s.socket()
    &&& if fills && f.1 == 0 {
        &&& actions == seq![PgmAction::ResetPollout(s.spec_handle())]
        &&& t.spec_has_tx_timer() == had_tx
        &&& t.buffer() == s.buffer()
        &&& t.pending() == s.pending()
        &&& t.spec_more_flag() == s.spec_more_flag()
        &&& q2 == q
    } else {
        &&& actions == (if had_tx {
            seq![PgmAction::CancelTimer(TX_TIMER_ID), PgmAction::SetPollout(s.spec_handle())]
        } else {
            Seq::<PgmAction>::empty()
        })
        &&& !t.spec_has_tx_timer()
        &&& if fills {
            &&& q2 == q.skip(f.0)
            &&& t.pending() == stream(s.pending(), q, f.0).skip(f.1)
            &&& t.spec_more_flag() == f.3
            &&& t.buffer() == seq![(f.2 >> 8u16) as u8, f.2 as u8] + stream(s.pending(), q, f.0).take(f.1)
                + s.buffer().skip(2 + f.1)
        } else {
            &&& q2 == q
            &&& t.pending() == s.pending()
            &&& t.spec_more_flag() == s.spec_more_flag()
            &&& t.buffer() == s.buffer()
        }
    }
}

proof fn lemma_stream_grows(pending: Seq<u8>, q: Seq<PgmMsg>, k: int)
    requires
        0 <= k,
    ensures
        stream(pending, q, k + 1) == stream(pending, q, k) + v1_frame(q[k].body(), q[k].spec_more()),
        stream(pending, q, k + 1).len() >= stream(pending, q, k).len() + 2,
        stream(pending, q, k + 1).take(stream(pending, q, k).len() as int) == stream(pending, q, k),
{
    reveal(stream);
    assert(stream(pending, q, k + 1).take(stream(pending, q, k).len() as int) =~= stream(pending, q, k));
}

proof fn lemma_stream_start(pending: Seq<u8>, q: Seq<PgmMsg>)
    ensures
        stream(pending, q, 0) == pending,
{
    reveal(stream);
}

/// One more message pulled: the fill goes on from there.
proof fn lemma_fill_step(
    p: Seq<u8>,
    q: Seq<PgmMsg>,
    cap: int,
    k: int,
    bytes: int,
    offset: u16,
    more: bool,
)
    requires
        0 <= k < q.len(),
        bytes < cap,
    ensures
        fill(p, q, cap, k, bytes, offset, more) == fill(
            p,
            q,
            cap,
            k + 1,
            if stream(p, q, k + 1).len() < cap { stream(p, q, k + 1).len() as int } else { cap },
            if !more && offset == 0xffff { bytes as u16 } else { offset },
            q[k].spec_more(),
        ),
{
    reveal(fill);
}

/// No message left: the fill ends after noting the offset.
proof fn lemma_fill_stop(
    p: Seq<u8>,
    q: Seq<PgmMsg>,
    cap: int,
    k: int,
    bytes: int,
    offset: u16,
    more: bool,
)
    requires
        k >= q.len(),
        bytes < cap,
    ensures
        fill(p, q, cap, k, bytes, offset, more) == (
            k,
            bytes,
            if !more && offset == 0xffff { bytes as u16 } else { offset },
            more,
        ),
{
    reveal(fill);
}

/// The packet is full: the fill ends.
proof fn lemma_fill_full(
    p: Seq<u8>,
    q: Seq<PgmMsg>,
    cap: int,
    k: int,
    bytes: int,
    offset: u16,
    more: bool,
)
    requires
        bytes >= cap,
    ensures
        fill(p, q, cap, k, bytes, offset, more) == (k, bytes, offset, more),
{
    reveal(fill);
}

/// Writing `n` more bytes of the stream into the packet.
proof fn lemma_packet_grows(b0: Seq<u8>, sk: Seq<u8>, sk1: Seq<u8>, bytes: int, n: int)
    requires
        sk.len() <= sk1.len(),
        sk1.take(sk.len() as int) == sk,
        0 <= bytes <= sk.len(),
        0 <= n,
        bytes + n <= sk1.len(),
        2 + bytes + n <= b0.len(),
    ensures
        ({
            let out = b0.take(2) + sk.take(bytes) + b0.skip(2 + bytes);
            out.take(2 + bytes) + sk1.skip(bytes).take(n) + out.skip(2 + bytes + n) == b0.take(2)
                + sk1.take(bytes + n) + b0.skip(2 + bytes + n)
        }),
        sk.skip(bytes) + (sk1.skip(sk.len() as int)) == sk1.skip(bytes),
        sk1.skip(bytes).skip(n) == sk1.skip(bytes + n),
{
    let out = b0.take(2) + sk.take(bytes) + b0.skip(2 + bytes);
    assert(out.take(2 + bytes) =~= b0.take(2) + sk.take(bytes));
    assert(sk.take(bytes) =~= sk1.take(bytes));
    assert(out.skip(2 + bytes + n) =~= b0.skip(2 + bytes + n));
    assert(sk1.take(bytes) + sk1.skip(bytes).take(n) =~= sk1.take(bytes + n));
    assert(b0.take(2) + sk.take(bytes) + sk1.skip(bytes).take(n) + b0.skip(2 + bytes + n)
        =~= b0.take(2) + sk1.take(bytes + n) + b0.skip(2 + bytes + n));
    assert(sk.skip(bytes) + (sk1.skip(sk.len() as int)) =~= sk1.skip(bytes));
    assert(sk1.skip(bytes).skip(n) =~= sk1.skip(bytes + n));
}

impl PgmSender {
    /// Sends what the session has: with no packet waiting, fills one with
    /// the frames of the messages `session` holds, as many as fit, and sends
    /// it; when the socket holds data back, waits for the send timer.
    #[verifier::rlimit(50)]
    pub fn out_event(&mut self, session: &mut VecDeque<PgmMsg>) -> (actions: Vec<PgmAction>)
        requires
            old(self).wf(),
            old(self).spec_write_size() == 0 ==> old(self).spec_buffer_size() >= 2 && (
            old(self).spec_buffer_size() == 2 || old(self).spec_plugged()),
        ensures
            out_event_post(
                *old(self),
                old(self).spec_has_tx_timer(),
                old(session)@,
                *final(self),
                final(session)@,
                actions@,
            ),
    {
        let ghost s0 = *self;
        let mut actions: Vec<PgmAction> = Vec::new();
        if self.write_size == 0 {
            let cap = self.out_buffer_size - 2;
            let ghost p0 = self.encoder.pending@;
            let ghost q0 = session@;
            let ghost b0 = self.out_buffer@;
            let ghost more0 = self.more_flag;
            let ghost mut k: int = 0;
            let mut offset: u16 = 0xffff;
            let mut bytes: usize = 0;
            proof {
                lemma_stream_start(p0, q0);
            }
            assert(b0 =~= b0.take(2) + stream(p0, q0, 0).take(0) + b0.skip(2));
            assert(p0 =~= stream(p0, q0, 0).skip(0));
            loop
                invariant_except_break
                    fill(p0, q0, cap as int, 0, 0, 0xffff, more0) == fill(
                        p0,
                        q0,
                        cap as int,
                        k,
                        bytes as int,
                        offset,
                        self.more_flag,
                    ),
                invariant
                    0 <= k <= q0.len(),
                    session@ == q0.skip(k),
                    cap == s0.out_buffer_size - 2,
                    s0.out_buffer_size >= 2,
                    bytes <= cap,
                    bytes <= stream(p0, q0, k).len(),
                    k > 0 ==> bytes > 0,
                    self.encoder.pending@ == stream(p0, q0, k).skip(bytes as int),
                    self.out_buffer@ == b0.take(2) + stream(p0, q0, k).take(bytes as int) + b0.skip(
                        2 + bytes,
                    ),
                    b0.len() == s0.out_buffer_size,
                    self.out_buffer_size == s0.out_buffer_size,
                    self.write_size == s0.write_size,
                    self.has_tx_timer == s0.has_tx_timer,
                    self.has_rx_timer == s0.has_rx_timer,
                    self.plugged == s0.plugged,
                    self.pgm_socket == s0.pgm_socket,
                    self.handles() == s0.handles(),
                    k == 0 ==> self.more_flag == more0,
                    cap > 0 ==> s0.plugged,
                ensures
                    fill(p0, q0, cap as int, 0, 0, 0xffff, more0) == (
                        k,
                        bytes as int,
                        offset,
                        self.more_flag,
                    ),
                decreases cap - bytes,
            {
                if bytes >= cap {
                    proof {
                        lemma_fill_full(p0, q0, cap as int, k, bytes as int, offset, self.more_flag);
                    }
                    break;
                }
                let ghost offset_before = offset;
                let ghost more_before = self.more_flag;
                if !self.more_flag && offset == 0xffff {
                    offset = bytes as u16;
                }
                match session.pop_front() {
                    Some(msg) => {
                        let ghost sk = stream(p0, q0, k);
                        let ghost sk1 = stream(p0, q0, k + 1);
                        proof {
                            lemma_stream_grows(p0, q0, k);
                            lemma_fill_step(p0, q0, cap as int, k, bytes as int, offset_before, more_before);
                            assert(msg == q0[k]);
                            assert(session@ =~= q0.skip(k + 1));
                        }
                        self.more_flag = msg.more;
                        self.encoder.load_msg(msg);
                        let n = self.encoder.encode(&mut self.out_buffer, 2 + bytes);
                        proof {
                            lemma_packet_grows(b0, sk, sk1, bytes as int, n as int);
                            k = k + 1;
                        }
                        bytes = bytes + n;
                    },
                    None => {
                        proof {
                            lemma_fill_stop(p0, q0, cap as int, k, bytes as int, offset_before, more_before);
                        }
                        break;
                    },
                }
            }
            if bytes == 0 {
                proof {
                    lemma_stream_start(p0, q0);
                    assert(session@ =~= q0);
                    assert(self.out_buffer@ =~= b0);
                    assert(self.encoder.pending@ =~= p0);
                }
                actions.push(PgmAction::ResetPollout(self.handle));
                return actions;
            }
            self.out_buffer.set(0, (offset >> 8u16) as u8);
            self.out_buffer.set(1, offset as u8);
            self.write_size = bytes + 2;
            proof {
                assert(self.out_buffer@ =~= seq![(offset >> 8u16) as u8, offset as u8] + stream(
                    p0,
                    q0,
                    k,
                ).take(bytes as int) + b0.skip(2 + bytes));
            }
        }
        if self.has_tx_timer {
            actions.push(PgmAction::CancelTimer(TX_TIMER_ID));
            actions.push(PgmAction::SetPollout(self.handle));
            self.has_tx_timer = false;
        }
        let packet = vstd::slice::slice_subrange(self.out_buffer.as_slice(), 0, self.write_size);
        match self.pgm_socket.send(packet) {
            Ok(n) => {
                if n == self.write_size {
                    self.write_size = 0;
                }
            },
            Err(e) => {
                if e == ENOMEM {
                    let timeout = self.pgm_socket.get_tx_timeout();
                    actions.push(PgmAction::AddTimer(timeout, TX_TIMER_ID));
                    actions.push(PgmAction::ResetPollout(self.handle));
                    self.has_tx_timer = true;
                }
            },
        }
        proof {
            if s0.has_tx_timer {
                assert(actions@ =~= seq![
                    PgmAction::CancelTimer(TX_TIMER_ID),
                    PgmAction::SetPollout(s0.handle),
                ]);
            } else {
                assert(actions@ =~= Seq::<PgmAction>::empty());
            }
        }
        actions
    }
}

impl PgmSender {
    /// A sender over a new PGM socket with these options; no buffer until
    /// `init`, not plugged, no timer running.
    pub fn new(options: &Options) -> (s: Self)
        ensures
            s.wf(),
            !s.spec_has_tx_timer() && !s.spec_has_rx_timer() && !s.spec_plugged(),
            s.pending() == Seq::<u8>::empty(),
            !s.spec_more_flag(),
            s.socket().options == *options && !s.socket().receiver && s.socket().sock is None,
            s.handles() == (0i32, 0i32, 0i32, 0i32),
            s.spec_buffer_size() == 0 && s.spec_write_size() == 0,
    {
        PgmSender {
            has_tx_timer: false,
            has_rx_timer: false,
            plugged: false,
            encoder: V1Encoder::new(0),
            more_flag: false,
            pgm_socket: PgmSocket::new(false, *options),
            handle: 0,
            uplink_handle: 0,
            rdata_notify_handle: 0,
            pending_notify_handle: 0,
            out_buffer: Vec::new(),
            out_buffer_size: 0,
            write_size: 0,
        }
    }

    /// Sets the socket up on `network` and makes the packet buffer as large
    /// as a packet can carry, zeroed.
    pub fn init(&mut self, udp_encapsulation: bool, network: &str) -> (r: Result<(), i32>)
        requires
            old(self).wf(),
            old(self).spec_write_size() == 0,
        ensures
            r is Ok,
            final(self).wf(),
            final(self).spec_buffer_size() == old(self).socket().options.multicast_maxtpdu,
            final(self).buffer() == Seq::new(final(self).spec_buffer_size(), |i: int| 0u8),
            final(self).spec_write_size() == 0,
            final(self).socket() == old(self).socket(),
            final(self).pending() == old(self).pending(),
            final(self).spec_more_flag() == old(self).spec_more_flag(),
            final(self).handles() == old(self).handles(),
            final(self).spec_plugged() == old(self).spec_plugged(),
            final(self).spec_has_tx_timer() == old(self).spec_has_tx_timer(),
            final(self).spec_has_rx_timer() == old(self).spec_has_rx_timer(),
    {
        match self.pgm_socket.init(udp_encapsulation, network) {
            Ok(()) => {},
            Err(e) => {
                return Err(e);
            },
        }
        self.out_buffer_size = self.pgm_socket.get_max_tsdu_size();
        self.out_buffer = vec![0u8; self.out_buffer_size];
        assert(self.out_buffer@ =~= Seq::new(self.out_buffer_size as nat, |i: int| 0u8));
        Ok(())
    }

    /// Attaches the session and starts watching the socket's descriptors:
    /// for data to send on the downlink, for what receivers send back on
    /// the others.
    pub fn plug(&mut self) -> (actions: Vec<PgmAction>)
        requires
            old(self).wf(),
        ensures
            final(self).wf(),
            final(self).spec_plugged(),
            final(self).handles() == (0i32, 0i32, 0i32, 0i32),
            actions@ == seq![
                PgmAction::AddFd(0),
                PgmAction::AddFd(0),
                PgmAction::AddFd(0),
                PgmAction::AddFd(0),
                PgmAction::SetPollin(0),
                PgmAction::SetPollin(0),
                PgmAction::SetPollin(0),
                PgmAction::SetPollout(0),
            ],
            final(self).socket() == old(self).socket(),
            final(self).pending() == old(self).pending(),
            final(self).spec_more_flag() == old(self).spec_more_flag(),
            final(self).buffer() == old(self).buffer(),
            final(self).spec_buffer_size() == old(self).spec_buffer_size(),
            final(self).spec_write_size() == old(self).spec_write_size(),
            final(self).spec_has_tx_timer() == old(self).spec_has_tx_timer(),
            final(self).spec_has_rx_timer() == old(self).spec_has_rx_timer(),
    {
        self.plugged = true;
        let (downlink_fd, uplink_fd, rdata_fd, pending_fd) = self.pgm_socket.get_sender_fds();
        let mut actions: Vec<PgmAction> = Vec::new();
        self.handle = downlink_fd;
        actions.push(PgmAction::AddFd(downlink_fd));
        self.uplink_handle = uplink_fd;
        actions.push(PgmAction::AddFd(uplink_fd));
        self.rdata_notify_handle = rdata_fd;
        actions.push(PgmAction::AddFd(rdata_fd));
        self.pending_notify_handle = pending_fd;
        actions.push(PgmAction::AddFd(pending_fd));
        actions.push(PgmAction::SetPollin(self.uplink_handle));
        actions.push(PgmAction::SetPollin(self.rdata_notify_handle));
        actions.push(PgmAction::SetPollin(self.pending_notify_handle));
        actions.push(PgmAction::SetPollout(self.handle));
        actions
    }

    /// Stops the timers that run, stops watching the descriptors and lets
    /// the session go.
    pub fn unplug(&mut self) -> (actions: Vec<PgmAction>)
        requires
            old(self).wf(),
        ensures
            final(self).wf(),
            !final(self).spec_plugged(),
            !final(self).spec_has_rx_timer() && !final(self).spec_has_tx_timer(),
            ({
                let (d, u, r, p) = old(self).handles();
                actions@ == (if old(self).spec_has_rx_timer() {
                    seq![PgmAction::CancelTimer(RX_TIMER_ID)]
                } else {
                    Seq::<PgmAction>::empty()
                }) + (if old(self).spec_has_tx_timer() {
                    seq![PgmAction::CancelTimer(TX_TIMER_ID)]
                } else {
                    Seq::<PgmAction>::empty()
                }) + seq![
                    PgmAction::RmFd(d),
                    PgmAction::RmFd(u),
                    PgmAction::RmFd(r),
                    PgmAction::RmFd(p),
                ]
            }),
            final(self).handles() == old(self).handles(),
            final(self).socket() == old(self).socket(),
            final(self).pending() == old(self).pending(),
            final(self).spec_more_flag() == old(self).spec_more_flag(),
            final(self).buffer() == old(self).buffer(),
            final(self).spec_buffer_size() == old(self).spec_buffer_size(),
            final(self).spec_write_size() == old(self).spec_write_size(),
    {
        let mut actions: Vec<PgmAction> = Vec::new();
        if self.has_rx_timer {
            actions.push(PgmAction::CancelTimer(RX_TIMER_ID));
            self.has_rx_timer = false;
        }
        if self.has_tx_timer {
            actions.push(PgmAction::CancelTimer(TX_TIMER_ID));
            self.has_tx_timer = false;
        }
        actions.push(PgmAction::RmFd(self.handle));
        actions.push(PgmAction::RmFd(self.uplink_handle));
        actions.push(PgmAction::RmFd(self.rdata_notify_handle));
        actions.push(PgmAction::RmFd(self.pending_notify_handle));
        self.plugged = false;
        proof {
            let (d, u, r, p) = old(self).handles();
            assert(actions@ =~= (if old(self).spec_has_rx_timer() {
                seq![PgmAction::CancelTimer(RX_TIMER_ID)]
            } else {
                Seq::<PgmAction>::empty()
            }) + (if old(self).spec_has_tx_timer() {
                seq![PgmAction::CancelTimer(TX_TIMER_ID)]
            } else {
                Seq::<PgmAction>::empty()
            }) + seq![
                PgmAction::RmFd(d),
                PgmAction::RmFd(u),
                PgmAction::RmFd(r),
                PgmAction::RmFd(p),
            ]);
        }
        actions
    }

    /// Receivers sent something back: stops the read timer and handles it;
    /// when the socket asks to wait, starts the read timer again. The
    /// socket never asks.
    pub fn in_event(&mut self) -> (actions: Vec<PgmAction>)
        requires
            old(self).wf(),
        ensures
            final(self).wf(),
            actions@ == (if old(self).spec_has_rx_timer() {
                seq![PgmAction::CancelTimer(RX_TIMER_ID)]
            } else {
                Seq::<PgmAction>::empty()
            }),
            !final(self).spec_has_rx_timer(),
            final(self).spec_has_tx_timer() == old(self).spec_has_tx_timer(),
            final(self).spec_plugged() == old(self).spec_plugged(),
            final(self).handles() == old(self).handles(),
            final(self).socket() == old(self).socket(),
            final(self).pending() == old(self).pending(),
            final(self).spec_more_flag() == old(self).spec_more_flag(),
            final(self).buffer() == old(self).buffer(),
            final(self).spec_buffer_size() == old(self).spec_buffer_size(),
            final(self).spec_write_size() == old(self).spec_write_size(),
    {
        let mut actions: Vec<PgmAction> = Vec::new();
        if self.has_rx_timer {
            actions.push(PgmAction::CancelTimer(RX_TIMER_ID));
            self.has_rx_timer = false;
        }
        match self.pgm_socket.process_upstream() {
            Ok(()) => {},
            Err(e) => {
                if e == EAGAIN || e == ENOMEM {
                    let timeout = self.pgm_socket.get_rx_timeout();
                    actions.push(PgmAction::AddTimer(timeout, RX_TIMER_ID));
                    self.has_rx_timer = true;
                }
            },
        }
        proof {
            if old(self).spec_has_rx_timer() {
                assert(actions@ =~= seq![PgmAction::CancelTimer(RX_TIMER_ID)]);
            } else {
                assert(actions@ =~= Seq::<PgmAction>::empty());
            }
        }
        actions
    }

    /// A timer went off: the read timer handles what receivers sent back,
    /// the send timer watches for room again and sends.
    pub fn timer_event(&mut self, token: i32, session: &mut VecDeque<PgmMsg>) -> (actions: Vec<PgmAction>)
        requires
            old(self).wf(),
            token == RX_TIMER_ID || token == TX_TIMER_ID,
            token == TX_TIMER_ID && old(self).spec_write_size() == 0 ==> old(self).spec_buffer_size() >= 2
                && (old(self).spec_buffer_size() == 2 || old(self).spec_plugged()),
        ensures
            token == RX_TIMER_ID ==> {
                &&& actions@ == Seq::<PgmAction>::empty()
                &&& !final(self).spec_has_rx_timer()
                &&& final(self).spec_has_tx_timer() == old(self).spec_has_tx_timer()
                &&& final(self).wf()
                &&& final(self).spec_plugged() == old(self).spec_plugged()
                &&& final(self).handles() == old(self).handles()
                &&& final(self).socket() == old(self).socket()
                &&& final(self).pending() == old(self).pending()
                &&& final(self).spec_more_flag() == old(self).spec_more_flag()
                &&& final(self).buffer() == old(self).buffer()
                &&& final(self).spec_buffer_size() == old(self).spec_buffer_size()
                &&& final(self).spec_write_size() == old(self).spec_write_size()
                &&& final(session)@ == old(session)@
            },
            token == TX_TIMER_ID ==> {
                &&& actions@.len() >= 1
                &&& actions@[0] == PgmAction::SetPollout(old(self).spec_handle())
                &&& out_event_post(
                    *old(self),
                    false,
                    old(session)@,
                    *final(self),
                    final(session)@,
                    actions@.skip(1),
                )
            },
    {
        if token == RX_TIMER_ID {
            self.has_rx_timer = false;
            self.in_event()
        } else {
            self.has_tx_timer = false;
            let mut actions: Vec<PgmAction> = Vec::new();
            actions.push(PgmAction::SetPollout(self.handle));
            let mut rest = self.out_event(session);
            let ghost sent = rest@;
            actions.append(&mut rest);
            assert(actions@.skip(1) =~= sent);
            actions
        }
    }

    /// PGM has no handshake.
    pub fn has_handshake_stage(&self) -> (r: bool)
        ensures
            !r,
    {
        false
    }

    /// The packet buffer.
    pub fn out_buffer(&self) -> (b: &[u8])
        ensures
            b@ == self.buffer(),
    {
        self.out_buffer.as_slice()
    }

    /// Whether the send timer runs.
    pub fn has_tx_timer(&self) -> (r: bool)
        ensures
            r == self.spec_has_tx_timer(),
    {
        self.has_tx_timer
    }
}

} // verus!
