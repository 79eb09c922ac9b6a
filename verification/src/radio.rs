use crate::mechanism::bytes_equal;
use std::collections::VecDeque;
use vstd::prelude::*;

verus! {

/// Socket option: block instead of dropping when a subscriber is full.
pub const ZMQ_XPUB_NODROP: i32 = 69;

/// Invalid argument.
pub const EINVAL: i32 = 22;

/// Resource temporarily unavailable.
pub const EAGAIN: i32 = 11;

/// Operation not supported.
pub const ENOTSUP: i32 = 95;

/// Flag bit: more parts follow.
pub const MSG_MORE: u8 = 1;

/// What a message is: data, or a dish joining or leaving a group.
#[derive(Debug, Clone, Copy, PartialEq, Eq, Structural)]
pub enum MsgKind {
    Data,
    Join,
    Leave,
}

/// A message: its kind, group, body and flag bits.
pub struct Msg {
    kind: MsgKind,
    group: Vec<u8>,
    data: Vec<u8>,
    flags: u8,
}

impl Msg {
    pub closed spec fn spec_kind(&self) -> MsgKind {
        self.kind
    }

    pub closed spec fn spec_group(&self) -> Seq<u8> {
        self.group@
    }

    pub closed spec fn body(&self) -> Seq<u8> {
        self.data@
    }

    pub closed spec fn flag_bits(&self) -> u8 {
        self.flags
    }

    pub fn new(kind: MsgKind, group: Vec<u8>, data: Vec<u8>, flags: u8) -> (m: Self)
        ensures
            m.spec_kind() == kind,
            m.spec_group() == group@,
            m.body() == data@,
            m.flag_bits() == flags,
    {
        Msg { kind, group, data, flags }
    }

    pub fn is_join(&self) -> (r: bool)
        ensures
            r == (self.spec_kind() == MsgKind::Join),
    {
        self.kind == MsgKind::Join
    }

    pub fn is_leave(&self) -> (r: bool)
        ensures
            r == (self.spec_kind() == MsgKind::Leave),
    {
        self.kind == MsgKind::Leave
    }

    pub fn group(&self) -> (g: &[u8])
        ensures
            g@ == self.spec_group(),
    {
        self.group.as_slice()
    }

    pub fn flags(&self) -> (f: u8)
        ensures
            f == self.flag_bits(),
    {
        self.flags
    }

    pub fn data(&self) -> (d: &[u8])
        ensures
            d@ == self.body(),
    {
        self.data.as_slice()
    }
}

/// A pipe to a peer: its identity and the messages the peer sent and that
/// were not read yet.
pub struct Pipe {
    id: u64,
    inbound: VecDeque<Msg>,
}

impl Pipe {
    pub closed spec fn spec_id(&self) -> u64 {
        self.id
    }

    pub closed spec fn spec_inbound(&self) -> Seq<Msg> {
        self.inbound@
    }

    pub fn new(id: u64) -> (p: Self)
        ensures
            p.spec_id() == id,
            p.spec_inbound() == Seq::<Msg>::empty(),
    {
        Pipe { id, inbound: VecDeque::new() }
    }

    /// The peer sends `msg`.
    pub fn deliver(&mut self, msg: Msg)
        ensures
            final(self).spec_id() == old(self).spec_id(),
            final(self).spec_inbound() == old(self).spec_inbound().push(msg),
    {
        self.inbound.push_back(msg);
    }

    fn set_nodelay(&self) {
    }

    fn read(&mut self) -> (r: Option<Msg>)
        ensures
            final(self).spec_id() == old(self).spec_id(),
            old(self).spec_inbound().len() == 0 ==> r is None && final(self).spec_inbound() == old(self).spec_inbound(),
            old(self).spec_inbound().len() > 0 ==> r == Some(old(self).spec_inbound()[0])
                && final(self).spec_inbound() == old(self).spec_inbound().drop_first(),
    {
        self.inbound.pop_front()
    }
}

/// Sends each message to the pipes matched for it.
struct Dist {
    pipes: Vec<u64>,
    matching: Vec<u64>,
    delivered: Vec<(u64, Vec<u8>)>,
}

impl Dist {
    fn new() -> (d: Self)
        ensures
            d.pipes@ == Seq::<u64>::empty(),
            d.matching@ == Seq::<u64>::empty(),
            d.delivered@ == Seq::<(u64, Vec<u8>)>::empty(),
    {
        Dist { pipes: Vec::new(), matching: Vec::new(), delivered: Vec::new() }
    }

    fn attach(&mut self, pipe: u64)
        ensures
            final(self).pipes@ == old(self).pipes@.push(pipe),
            final(self).matching@ == old(self).matching@,
            final(self).delivered@ == old(self).delivered@,
    {
        self.pipes.push(pipe);
    }

    fn activated(&mut self, _pipe: u64)
        ensures
            final(self).pipes@ == old(self).pipes@,
            final(self).matching@ == old(self).matching@,
            final(self).delivered@ == old(self).delivered@,
    {
    }

    fn unmatch(&mut self)
        ensures
            final(self).pipes@ == old(self).pipes@,
            final(self).matching@ == Seq::<u64>::empty(),
            final(self).delivered@ == old(self).delivered@,
    {
        self.matching = Vec::new();
    }

    /// Marks `pipe` as a receiver of the next message, once.
    fn match_pipe(&mut self, pipe: u64)
        ensures
            final(self).pipes@ == old(self).pipes@,
            final(self).matching@ == add_match(old(self).matching@, pipe),
            final(self).delivered@ == old(self).delivered@,
    {
        let mut i: usize = 0;
        while i < self.matching.len()
            invariant
                i <= self.matching@.len(),
                forall|j: int| 0 <= j < i ==> self.matching@[j] != pipe,
                self.pipes@ == old(self).pipes@,
                self.matching@ == old(self).matching@,
                self.delivered@ == old(self).delivered@,
            decreases self.matching@.len() - i,
        {
            if self.matching[i] == pipe {
                assert(self.matching@.contains(pipe));
                return;
            }
            i += 1;
        }
        self.matching.push(pipe);
    }

    /// Whether every matched pipe takes more messages: none is among `full`.
    fn check_hwm(&self, full: &Vec<u64>) -> (r: bool)
        ensures
            r == (forall|k: int| 0 <= k < self.matching@.len() ==> !full@.contains(#[trigger] self.matching@[k])),
    {
        let mut i: usize = 0;
        while i < self.matching.len()
            invariant
                i <= self.matching@.len(),
                forall|k: int| 0 <= k < i ==> !full@.contains(#[trigger] self.matching@[k]),
            decreases self.matching@.len() - i,
        {
            if contains_id(full, self.matching[i]) {
                return false;
            }
            i += 1;
        }
        true
    }

    /// Sends the message to every matched pipe that takes more, in the order
    /// they were matched; a pipe among `full` drops it.
    fn send_to_matching(&mut self, msg: &Msg, full: &Vec<u64>) -> (r: Result<(), i32>)
        ensures
            r is Ok,
            final(self).pipes@ == old(self).pipes@,
            final(self).matching@ == old(self).matching@,
            dview(final(self).delivered@) == dview(old(self).delivered@) + live(old(self).matching@, full@).map_values(
                |p: u64| (p, msg.body()),
            ),
    {
        let ghost pred = |p: u64| !full@.contains(p);
        let ghost f = |p: u64| (p, msg.body());
        let mut i: usize = 0;
        assert(self.matching@.take(0).filter(pred) =~= Seq::<u64>::empty());
        assert(dview(self.delivered@) =~= dview(old(self).delivered@) + Seq::<u64>::empty().map_values(f));
        while i < self.matching.len()
            invariant
                i <= self.matching@.len(),
                pred == (|p: u64| !full@.contains(p)),
                f == (|p: u64| (p, msg.body())),
                self.pipes@ == old(self).pipes@,
                self.matching@ == old(self).matching@,
                dview(self.delivered@) == dview(old(self).delivered@) + self.matching@.take(i as int).filter(pred).map_values(f),
            decreases self.matching@.len() - i,
        {
            let p = self.matching[i];
            let ghost before = self.matching@.take(i as int).filter(pred);
            proof {
                self.matching@.take(i as int).lemma_filter_push(p, pred);
                assert(self.matching@.take(i + 1) =~= self.matching@.take(i as int).push(p));
            }
            if !contains_id(full, p) {
                let ghost d_before = self.delivered@;
                self.delivered.push((p, vstd::slice::slice_to_vec(msg.data())));
                proof {
                    assert(dview(self.delivered@) =~= dview(d_before).push(f(p)));
                    assert(before.push(p).map_values(f) =~= before.map_values(f).push(f(p)));
                }
            }
            i += 1;
        }
        assert(self.matching@.take(self.matching@.len() as int) =~= self.matching@);
        Ok(())
    }

    fn has_out(&self) -> (r: bool)
        ensures
            r,
    {
        true
    }

    fn pipe_terminated(&mut self, pipe: u64)
        ensures
            final(self).pipes@ == old(self).pipes@.filter(|p: u64| p != pipe),
            final(self).matching@ == old(self).matching@.filter(|p: u64| p != pipe),
            final(self).delivered@ == old(self).delivered@,
    {
        self.pipes = without(&self.pipes, pipe);
        self.matching = without(&self.matching, pipe);
    }
}

/// The matched pipes after matching `pipe`: it is added unless already
/// there.
pub open spec fn add_match(matching: Seq<u64>, pipe: u64) -> Seq<u64> {
    if matching.contains(pipe) {
        matching
    } else {
        matching.push(pipe)
    }
}

/// The pipes of `matching` that take more: those not among `full`, in
/// order.
pub open spec fn live(matching: Seq<u64>, full: Seq<u64>) -> Seq<u64> {
    matching.filter(|p: u64| !full.contains(p))
}

/// What was delivered, by pipe and bytes.
pub open spec fn dview(d: Seq<(u64, Vec<u8>)>) -> Seq<(u64, Seq<u8>)> {
    d.map_values(|e: (u64, Vec<u8>)| (e.0, e.1@))
}

/// Whether `v` holds `x`.
fn contains_id(v: &Vec<u64>, x: u64) -> (r: bool)
    ensures
        r == v@.contains(x),
{
    let mut i: usize = 0;
    while i < v.len()
        invariant
            i <= v@.len(),
            forall|j: int| 0 <= j < i ==> v@[j] != x,
        decreases v@.len() - i,
    {
        if v[i] == x {
            assert(v@[i as int] == x);
            return true;
        }
        i += 1;
    }
    false
}

/// `v` without `x`.
fn without(v: &Vec<u64>, x: u64) -> (r: Vec<u64>)
    ensures
        r@ == v@.filter(|p: u64| p != x),
{
    let ghost keep = |p: u64| p != x;
    let mut r: Vec<u64> = Vec::new();
    let mut i: usize = 0;
    while i < v.len()
        invariant
            i <= v@.len(),
            keep == (|p: u64| p != x),
            r@ == v@.take(i as int).filter(keep),
        decreases v@.len() - i,
    {
        proof {
            v@.take(i as int).lemma_filter_push(v@[i as int], keep);
            assert(v@.take(i + 1) =~= v@.take(i as int).push(v@[i as int]));
        }
        if v[i] != x {
            r.push(v[i]);
        }
        i += 1;
    }
    assert(v@.take(v@.len() as int) =~= v@);
    r
}

/// The pipes subscribed to `group`, in subscription order.
pub open spec fn subscribers(subs: Seq<(Seq<u8>, u64)>, group: Seq<u8>) -> Seq<u64>
    decreases subs.len(),
{
    if subs.len() == 0 {
        Seq::empty()
    } else {
        let rest = subscribers(subs.drop_last(), group);
        if subs.last().0 == group {
            rest.push(subs.last().1)
        } else {
            rest
        }
    }
}

/// The matched pipes after matching each of `pipes` in turn.
pub open spec fn match_all(matching: Seq<u64>, pipes: Seq<u64>) -> Seq<u64>
    decreases pipes.len(),
{
    if pipes.len() == 0 {
        matching
    } else {
        add_match(match_all(matching, pipes.drop_last()), pipes.last())
    }
}

/// The index of the first subscription of `pipe` to `group`, if any.
pub open spec fn first_subscription(subs: Seq<(Seq<u8>, u64)>, group: Seq<u8>, pipe: u64) -> Option<
    int,
> {
    if exists|i: int| 0 <= i < subs.len() && subs[i] == (group, pipe) {
        Some(
            choose|i: int|
                0 <= i < subs.len() && subs[i] == (group, pipe) && forall|j: int|
                    0 <= j < i ==> subs[j] != (group, pipe),
        )
    } else {
        None
    }
}

/// The subscriptions after a pipe's JOIN and LEAVE messages `msgs`: a JOIN
/// adds one, a LEAVE removes the pipe's first one to that group.
pub open spec fn apply_membership(subs: Seq<(Seq<u8>, u64)>, pipe: u64, msgs: Seq<Msg>) -> Seq<
    (Seq<u8>, u64),
>
    decreases msgs.len(),
{
    if msgs.len() == 0 {
        subs
    } else {
        let m = msgs[0];
        let next = if m.spec_kind() == MsgKind::Join {
            subs.push((m.spec_group(), pipe))
        } else if m.spec_kind() == MsgKind::Leave {
            match first_subscription(subs, m.spec_group(), pipe) {
                Some(i) => subs.remove(i),
                None => subs,
            }
        } else {
            subs
        };
        apply_membership(next, pipe, msgs.drop_first())
    }
}

/// A RADIO socket: sends each message to the dishes that joined its group
/// and to the pipes subscribed to everything.
pub struct Radio {
    subscriptions: Vec<(Vec<u8>, u64)>,
    udp_pipes: Vec<u64>,
    dist: Dist,
    lossy: bool,
    full: Vec<u64>,
}

impl Radio {
    /// The subscriptions, as (group, pipe) in the order they were made.
    pub closed spec fn spec_subscriptions(&self) -> Seq<(Seq<u8>, u64)> {
        self.subscriptions@.map_values(|s: (Vec<u8>, u64)| (s.0@, s.1))
    }

    /// The pipes that take every message.
    pub closed spec fn spec_udp_pipes(&self) -> Seq<u64> {
        self.udp_pipes@
    }

    /// The pipes messages can go to.
    pub closed spec fn spec_pipes(&self) -> Seq<u64> {
        self.dist.pipes@
    }

    /// What was sent: to which pipe, which bytes.
    pub closed spec fn spec_delivered(&self) -> Seq<(u64, Seq<u8>)> {
        dview(self.dist.delivered@)
    }

    pub closed spec fn spec_lossy(&self) -> bool {
        self.lossy
    }

    /// The pipes that reached their high-water mark and take no message
    /// until they are activated for writing again.
    pub closed spec fn spec_full(&self) -> Seq<u64> {
        self.full@
    }

    /// How many messages were sent, counting each pipe a message went to.
    pub fn delivered_count(&self) -> (n: usize)
        ensures
            n == self.spec_delivered().len(),
    {
        self.dist.delivered.len()
    }

    /// The `i`-th message sent: the pipe it went to and its bytes.
    pub fn delivered_at(&self, i: usize) -> (r: (u64, &[u8]))
        requires
            i < self.spec_delivered().len(),
        ensures
            r.0 == self.spec_delivered()[i as int].0,
            r.1@ == self.spec_delivered()[i as int].1,
    {
        let d = &self.dist.delivered[i];
        (d.0, d.1.as_slice())
    }

    pub fn new(parent: &mut Context, tid: u32, sid: i32) -> (r: Self)
        ensures
            r.spec_subscriptions() == Seq::<(Seq<u8>, u64)>::empty(),
            r.spec_udp_pipes() == Seq::<u64>::empty(),
            r.spec_pipes() == Seq::<u64>::empty(),
            r.spec_delivered() == Seq::<(u64, Seq<u8>)>::empty(),
            r.spec_lossy(),
            r.spec_full() == Seq::<u64>::empty(),
    {
        let r = Radio {
            subscriptions: Vec::new(),
            udp_pipes: Vec::new(),
            dist: Dist::new(),
            lossy: true,
            full: Vec::new(),
        };
        assert(r.spec_subscriptions() =~= Seq::<(Seq<u8>, u64)>::empty());
        assert(r.spec_delivered() =~= Seq::<(u64, Seq<u8>)>::empty());
        r
    }

    /// Takes on a pipe: one subscribed to everything goes with the UDP
    /// pipes, any other is read for its JOIN and LEAVE messages.
    pub fn attach_pipe(&mut self, pipe: &mut Pipe, subscribe_to_all: bool, locally_initiated: bool)
        ensures
            final(self).spec_pipes() == old(self).spec_pipes().push(old(pipe).spec_id()),
            final(self).spec_lossy() == old(self).spec_lossy(),
            final(self).spec_full() == old(self).spec_full(),
            final(self).spec_delivered() == old(self).spec_delivered(),
            subscribe_to_all ==> final(self).spec_udp_pipes() == old(self).spec_udp_pipes().push(
                old(pipe).spec_id(),
            ) && final(self).spec_subscriptions() == old(self).spec_subscriptions() && final(pipe).spec_inbound() == old(pipe).spec_inbound(),
            !subscribe_to_all ==> final(self).spec_udp_pipes() == old(self).spec_udp_pipes()
                && final(self).spec_subscriptions() == apply_membership(
                old(self).spec_subscriptions(),
                old(pipe).spec_id(),
                old(pipe).spec_inbound(),
            ) && final(pipe).spec_inbound() == Seq::<Msg>::empty(),
    {
        pipe.set_nodelay();
        self.dist.attach(pipe.id);
        if subscribe_to_all {
            self.udp_pipes.push(pipe.id);
        } else {
            self.read_activated(pipe);
        }
    }

    /// Reads every waiting message of `pipe`, applying its JOINs and
    /// LEAVEs.
    pub fn read_activated(&mut self, pipe: &mut Pipe)
        ensures
            final(self).spec_subscriptions() == apply_membership(
                old(self).spec_subscriptions(),
                old(pipe).spec_id(),
                old(pipe).spec_inbound(),
            ),
            final(pipe).spec_inbound() == Seq::<Msg>::empty(),
            final(pipe).spec_id() == old(pipe).spec_id(),
            final(self).spec_udp_pipes() == old(self).spec_udp_pipes(),
            final(self).spec_pipes() == old(self).spec_pipes(),
            final(self).spec_delivered() == old(self).spec_delivered(),
            final(self).spec_lossy() == old(self).spec_lossy(),
            final(self).spec_full() == old(self).spec_full(),
    {
        loop
            invariant
                apply_membership(self.spec_subscriptions(), pipe.spec_id(), pipe.spec_inbound())
                    == apply_membership(
                    old(self).spec_subscriptions(),
                    old(pipe).spec_id(),
                    old(pipe).spec_inbound(),
                ),
                pipe.spec_id() == old(pipe).spec_id(),
                self.udp_pipes@ == old(self).udp_pipes@,
                self.dist.pipes@ == old(self).dist.pipes@,
                self.dist.delivered@ == old(self).dist.delivered@,
                self.lossy == old(self).lossy,
                self.full@ == old(self).full@,
            ensures
                self.spec_subscriptions() == apply_membership(
                    old(self).spec_subscriptions(),
                    old(pipe).spec_id(),
                    old(pipe).spec_inbound(),
                ),
                pipe.spec_inbound() == Seq::<Msg>::empty(),
                pipe.spec_id() == old(pipe).spec_id(),
                self.udp_pipes@ == old(self).udp_pipes@,
                self.dist.pipes@ == old(self).dist.pipes@,
                self.dist.delivered@ == old(self).dist.delivered@,
                self.lossy == old(self).lossy,
                self.full@ == old(self).full@,
            decreases pipe.spec_inbound().len(),
        {
            let ghost before = pipe.spec_inbound();
            match pipe.read() {
                None => {
                    break;
                },
                Some(msg) => {
                    proof {
                        assert(before.drop_first() == pipe.spec_inbound());
                    }
                    if msg.is_join() {
                        let g = vstd::slice::slice_to_vec(msg.group());
                        let ghost s0 = self.spec_subscriptions();
                        self.subscriptions.push((g, pipe.id));
                        assert(self.spec_subscriptions() =~= s0.push((msg.spec_group(), pipe.spec_id())));
                    } else if msg.is_leave() {
                        self.leave(msg.group(), pipe.id);
                    }
                },
            }
        }
    }

    /// Removes the first subscription of `pipe` to `group`, if any.
    fn leave(&mut self, group: &[u8], pipe: u64)
        ensures
            final(self).spec_subscriptions() == match first_subscription(
                old(self).spec_subscriptions(),
                group@,
                pipe,
            ) {
                Some(i) => old(self).spec_subscriptions().remove(i),
                None => old(self).spec_subscriptions(),
            },
            final(self).udp_pipes@ == old(self).udp_pipes@,
            final(self).dist.pipes@ == old(self).dist.pipes@,
            final(self).dist.delivered@ == old(self).dist.delivered@,
            final(self).lossy == old(self).lossy,
            final(self).full@ == old(self).full@,
    {
        let ghost s = self.spec_subscriptions();
        let mut i: usize = 0;
        while i < self.subscriptions.len()
            invariant
                i <= self.subscriptions@.len(),
                self.spec_subscriptions() == s,
                s == old(self).spec_subscriptions(),
                s.len() == self.subscriptions@.len(),
                forall|j: int| 0 <= j < i ==> s[j] != (group@, pipe),
                self.udp_pipes@ == old(self).udp_pipes@,
                self.dist.pipes@ == old(self).dist.pipes@,
                self.dist.delivered@ == old(self).dist.delivered@,
                self.lossy == old(self).lossy,
                self.full@ == old(self).full@,
            decreases self.subscriptions@.len() - i,
        {
            if self.subscriptions[i].1 == pipe && bytes_equal(self.subscriptions[i].0.as_slice(), group) {
                assert(s[i as int] == (group@, pipe));
                let _ = self.subscriptions.remove(i);
                proof {
                    let target = (group@, pipe);
                    assert(exists|j: int| 0 <= j < s.len() && s[j] == target);
                    assert(0 <= i < s.len() && s[i as int] == target && forall|j: int|
                        0 <= j < i ==> s[j] != target);
                    let k = first_subscription(s, group@, pipe)->0;
                    assert(0 <= k < s.len() && s[k] == target && forall|j: int| 0 <= j < k ==> s[j] != target);
                    if k < i {
                        assert(s[k] != target);
                    } else if k > i {
                        assert(s[i as int] != target);
                    }
                    assert(k == i);
                    assert(self.spec_subscriptions() =~= s.remove(i as int));
                }
                return;
            }
            i += 1;
        }
    }

    /// `pipe` takes messages again.
    pub fn write_activated(&mut self, pipe: &Pipe)
        ensures
            final(self).spec_subscriptions() == old(self).spec_subscriptions(),
            final(self).spec_udp_pipes() == old(self).spec_udp_pipes(),
            final(self).spec_pipes() == old(self).spec_pipes(),
            final(self).spec_delivered() == old(self).spec_delivered(),
            final(self).spec_lossy() == old(self).spec_lossy(),
            final(self).spec_full() == old(self).spec_full().filter(|p: u64| p != pipe.spec_id()),
    {
        self.dist.activated(pipe.id);
        self.full = without(&self.full, pipe.id);
    }

    /// `pipe` reached its high-water mark: it takes no message until it is
    /// activated for writing again.
    pub fn pipe_full(&mut self, pipe: &Pipe)
        ensures
            final(self).spec_full() == (if old(self).spec_full().contains(pipe.spec_id()) {
                old(self).spec_full()
            } else {
                old(self).spec_full().push(pipe.spec_id())
            }),
            final(self).spec_subscriptions() == old(self).spec_subscriptions(),
            final(self).spec_udp_pipes() == old(self).spec_udp_pipes(),
            final(self).spec_pipes() == old(self).spec_pipes(),
            final(self).spec_delivered() == old(self).spec_delivered(),
            final(self).spec_lossy() == old(self).spec_lossy(),
    {
        if !contains_id(&self.full, pipe.id) {
            self.full.push(pipe.id);
        }
    }

    /// Sets whether messages may be dropped: a non-zero value stops
    /// dropping. Every option is taken as this one (`ZMQ_XPUB_NODROP`, the
    /// only option a RADIO socket has).
    pub fn set_sockopt(&mut self, _option: i32, value: i32) -> (r: Result<(), i32>)
        ensures
            r is Ok,
            final(self).spec_lossy() == (value == 0),
            final(self).spec_subscriptions() == old(self).spec_subscriptions(),
            final(self).spec_udp_pipes() == old(self).spec_udp_pipes(),
            final(self).spec_pipes() == old(self).spec_pipes(),
            final(self).spec_delivered() == old(self).spec_delivered(),
            final(self).spec_full() == old(self).spec_full(),
    {
        self.lossy = value == 0;
        Ok(())
    }

    /// Forgets `pipe`: its subscriptions, its place among the UDP pipes and
    /// among the pipes messages go to.
    pub fn pipe_terminated(&mut self, pipe: &Pipe)
        ensures
            final(self).spec_subscriptions() == old(self).spec_subscriptions().filter(
                |s: (Seq<u8>, u64)| s.1 != pipe.spec_id(),
            ),
            final(self).spec_udp_pipes() == old(self).spec_udp_pipes().filter(
                |p: u64| p != pipe.spec_id(),
            ),
            final(self).spec_pipes() == old(self).spec_pipes().filter(|p: u64| p != pipe.spec_id()),
            final(self).spec_delivered() == old(self).spec_delivered(),
            final(self).spec_lossy() == old(self).spec_lossy(),
            final(self).spec_full() == old(self).spec_full().filter(|p: u64| p != pipe.spec_id()),
    {
        let id = pipe.id;
        let ghost s = self.spec_subscriptions();
        let ghost keep = |e: (Seq<u8>, u64)| e.1 != id;
        let mut kept: Vec<(Vec<u8>, u64)> = Vec::new();
        let mut old_subs: Vec<(Vec<u8>, u64)> = Vec::new();
        std::mem::swap(&mut old_subs, &mut self.subscriptions);
        let ghost src = old_subs@;
        let ghost view = |e: (Vec<u8>, u64)| (e.0@, e.1);
        assert(s == src.map_values(view));
        while old_subs.len() > 0
            invariant
                keep == (|e: (Seq<u8>, u64)| e.1 != id),
                view == (|e: (Vec<u8>, u64)| (e.0@, e.1)),
                s == src.map_values(view),
                old_subs@.len() <= src.len(),
                old_subs@ == src.skip(src.len() - old_subs@.len()),
                kept@.map_values(view) == s.take(src.len() - old_subs@.len()).filter(keep),
                self.udp_pipes@ == old(self).udp_pipes@,
                self.dist.pipes@ == old(self).dist.pipes@,
                self.dist.matching@ == old(self).dist.matching@,
                self.dist.delivered@ == old(self).dist.delivered@,
                self.lossy == old(self).lossy,
                self.full@ == old(self).full@,
            decreases old_subs@.len(),
        {
            let ghost k = src.len() - old_subs@.len();
            let e = old_subs.remove(0);
            proof {
                assert(e == src[k]);
                assert(old_subs@ =~= src.skip(k + 1));
                s.take(k).lemma_filter_push(s[k], keep);
                assert(s.take(k + 1) =~= s.take(k).push(s[k]));
                assert(s[k] == view(e));
            }
            if e.1 != id {
                let ghost before = kept@;
                kept.push(e);
                assert(kept@.map_values(view) =~= before.map_values(view).push(view(e)));
            }
        }
        proof {
            assert(s.take(src.len() as int) =~= s);
        }
        self.subscriptions = kept;
        assert(self.spec_subscriptions() =~= kept@.map_values(view));
        self.udp_pipes = without(&self.udp_pipes, id);
        self.full = without(&self.full, id);
        self.dist.pipe_terminated(id);
    }

    /// Sends a single-part message to the dishes in its group and to the
    /// UDP pipes; a message with more parts is refused with `EINVAL`. Where
    /// messages may not be dropped and a matched pipe is full, nothing is
    /// sent and the answer is `EAGAIN`; else a full pipe drops it.
    pub fn send(&mut self, msg: &mut Msg) -> (r: Result<(), i32>)
        ensures
            final(self).spec_full() == old(self).spec_full(),
            final(self).spec_subscriptions() == old(self).spec_subscriptions(),
            final(self).spec_udp_pipes() == old(self).spec_udp_pipes(),
            final(self).spec_pipes() == old(self).spec_pipes(),
            final(self).spec_lossy() == old(self).spec_lossy(),
            *final(msg) == *old(msg),
            old(msg).flag_bits() & MSG_MORE != 0 ==> r == Err::<(), i32>(EINVAL)
                && final(self).spec_delivered() == old(self).spec_delivered(),
            old(msg).flag_bits() & MSG_MORE == 0 ==> {
                let targets = match_all(
                    match_all(
                        Seq::<u64>::empty(),
                        subscribers(old(self).spec_subscriptions(), old(msg).spec_group()),
                    ),
                    old(self).spec_udp_pipes(),
                );
                let blocked = !old(self).spec_lossy() && exists|k: int|
                    0 <= k < targets.len() && old(self).spec_full().contains(#[trigger] targets[k]);
                &&& blocked ==> r == Err::<(), i32>(EAGAIN) && final(self).spec_delivered()
                    == old(self).spec_delivered()
                &&& !blocked ==> r is Ok && final(self).spec_delivered() == old(self).spec_delivered()
                    + live(targets, old(self).spec_full()).map_values(|p: u64| (p, old(msg).body()))
            },
    {
        if msg.flags() & MSG_MORE != 0 {
            return Err(EINVAL);
        }
        self.dist.unmatch();
        let ghost subs = self.spec_subscriptions();
        let mut i: usize = 0;
        while i < self.subscriptions.len()
            invariant
                i <= self.subscriptions@.len(),
                subs == self.spec_subscriptions(),
                subs == old(self).spec_subscriptions(),
                self.dist.matching@ == match_all(
                    Seq::<u64>::empty(),
                    subscribers(subs.take(i as int), msg.spec_group()),
                ),
                self.dist.pipes@ == old(self).dist.pipes@,
                self.dist.delivered@ == old(self).dist.delivered@,
                self.udp_pipes@ == old(self).udp_pipes@,
                self.lossy == old(self).lossy,
                self.full@ == old(self).full@,
            decreases self.subscriptions@.len() - i,
        {
            proof {
                assert(subs.take(i + 1).drop_last() =~= subs.take(i as int));
            }
            if bytes_equal(self.subscriptions[i].0.as_slice(), msg.group()) {
                let p = self.subscriptions[i].1;
                self.dist.match_pipe(p);
                proof {
                    let ss = subscribers(subs.take(i as int), msg.spec_group());
                    assert(subscribers(subs.take(i + 1), msg.spec_group()) == ss.push(p));
                    assert(ss.push(p).drop_last() =~= ss);
                }
            }
            i += 1;
        }
        proof {
            assert(subs.take(subs.len() as int) =~= subs);
        }
        let ghost first = self.dist.matching@;
        let mut j: usize = 0;
        while j < self.udp_pipes.len()
            invariant
                j <= self.udp_pipes@.len(),
                self.udp_pipes@ == old(self).udp_pipes@,
                self.dist.matching@ == match_all(first, self.udp_pipes@.take(j as int)),
                self.dist.pipes@ == old(self).dist.pipes@,
                self.dist.delivered@ == old(self).dist.delivered@,
                self.spec_subscriptions() == old(self).spec_subscriptions(),
                self.lossy == old(self).lossy,
                self.full@ == old(self).full@,
            decreases self.udp_pipes@.len() - j,
        {
            let p = self.udp_pipes[j];
            self.dist.match_pipe(p);
            proof {
                assert(self.udp_pipes@.take(j + 1).drop_last() =~= self.udp_pipes@.take(j as int));
            }
            j += 1;
        }
        proof {
            assert(self.udp_pipes@.take(self.udp_pipes@.len() as int) =~= self.udp_pipes@);
        }
        if self.lossy || self.dist.check_hwm(&self.full) {
            if self.dist.send_to_matching(msg, &self.full).is_ok() {
                return Ok(());
            }
        }
        Err(EAGAIN)
    }

    pub fn has_out(&self) -> (r: bool)
        ensures
            r,
    {
        self.dist.has_out()
    }

    /// A RADIO socket receives nothing.
    pub fn recv(&mut self, _msg: &mut Msg) -> (r: Result<(), i32>)
        ensures
            r == Err::<(), i32>(ENOTSUP),
    {
        Err(ENOTSUP)
    }

    pub fn has_in(&self) -> (r: bool)
        ensures
            !r,
    {
        false
    }
}

/// The context a socket belongs to.
pub struct Context;

/// The I/O thread a session runs on.
pub struct IoThread;

/// The socket a session serves.
pub struct SocketBase;

/// Session options.
pub struct Options;

/// The address a session connects to.
pub struct Address;

/// Where a RADIO session is in turning a message into its two frames:
/// the group, then the body.
#[derive(Debug, Clone, Copy, PartialEq, Eq, Structural)]
pub enum SessionState {
    Group,
    Body,
}

/// What a RADIO session holds: where it is in a message, the message it is
/// sending, and the messages queued after it.
pub type SessionModel = (SessionState, Option<Msg>, Seq<Msg>);

/// One pull from session `s0` with `m0` in the frame: `s1`, `m1` and `r`
/// are the session, the frame and the result after it. In the group state
/// with nothing pending, the first queued message becomes pending; a pending
/// message gives its group, flagged MORE, then itself; with nothing to send
/// the answer is `EAGAIN` and nothing changes.
pub open spec fn pull_step(s0: SessionModel, m0: Msg, s1: SessionModel, m1: Msg, r: Result<(), i32>) -> bool {
    let pending = match s0.1 {
        Some(p) => Some(p),
        None => if s0.0 == SessionState::Group && s0.2.len() > 0 {
            Some(s0.2[0])
        } else {
            None
        },
    };
    let took = s0.1 is None && pending is Some;
    &&& s1.2 == if took {
        s0.2.drop_first()
    } else {
        s0.2
    }
    &&& match pending {
        None => r == Err::<(), i32>(EAGAIN) && s1.0 == s0.0 && s1.1 is None && m1 == m0,
        Some(p) => if s0.0 == SessionState::Group {
            &&& r is Ok
            &&& m1.spec_kind() == MsgKind::Data
            &&& m1.body() == p.spec_group()
            &&& m1.flag_bits() == MSG_MORE
            &&& s1.1 == Some(p)
            &&& s1.0 == SessionState::Body
        } else {
            &&& r is Ok
            &&& m1 == p
            &&& s1.1 is None
            &&& s1.0 == SessionState::Group
        },
    }
}

/// Two pulls from a session in its group state with message `p` pending:
/// the first gives `p`'s group as a frame flagged MORE and keeps `p`
/// pending in the body state; the second gives `p` itself and leaves the
/// session in its group state with nothing pending and its queue as it was.
pub proof fn law_pull_group_then_body(
    s0: SessionModel,
    m0: Msg,
    s1: SessionModel,
    m1: Msg,
    r1: Result<(), i32>,
    s2: SessionModel,
    m2: Msg,
    r2: Result<(), i32>,
)
    requires
        s0.0 == SessionState::Group,
        s0.1 is Some,
        pull_step(s0, m0, s1, m1, r1),
        pull_step(s1, m1, s2, m2, r2),
    ensures
        r1 is Ok,
        m1.spec_kind() == MsgKind::Data,
        m1.body() == s0.1->0.spec_group(),
        m1.flag_bits() == MSG_MORE,
        s1.0 == SessionState::Body,
        s1.1 == s0.1,
        r2 is Ok,
        m2 == s0.1->0,
        s2.0 == SessionState::Group,
        s2.1 is None,
        s2.2 == s0.2,
{
}

/// A pull with nothing pending and nothing it could take (the session is
/// in its body state, or nothing is queued) answers `EAGAIN` and changes
/// neither the session nor the frame.
pub proof fn law_pull_nothing_pending(s0: SessionModel, m0: Msg, s1: SessionModel, m1: Msg, r: Result<(), i32>)
    requires
        s0.1 is None,
        s0.0 == SessionState::Body || s0.2.len() == 0,
        pull_step(s0, m0, s1, m1, r),
    ensures
        r == Err::<(), i32>(EAGAIN),
        s1 == s0,
        m1 == m0,
{
}

/// The session of a RADIO socket: sends each message as a group frame
/// followed by the body.
pub struct RadioSession {
    state: SessionState,
    pending_msg: Option<Msg>,
    outbound: VecDeque<Msg>,
}

impl RadioSession {
    pub closed spec fn spec_state(&self) -> SessionState {
        self.state
    }

    pub closed spec fn spec_pending(&self) -> Option<Msg> {
        self.pending_msg
    }

    /// The messages the socket handed to the session, not yet pulled.
    pub closed spec fn spec_outbound(&self) -> Seq<Msg> {
        self.outbound@
    }

    pub fn new(
        io_thread: &IoThread,
        connect: bool,
        socket: &SocketBase,
        options: &Options,
        addr: &Address,
    ) -> (s: Self)
        ensures
            s.spec_state() == SessionState::Group,
            s.spec_pending() is None,
            s.spec_outbound() == Seq::<Msg>::empty(),
    {
        RadioSession { state: SessionState::Group, pending_msg: None, outbound: VecDeque::new() }
    }

    /// The socket hands the session a message to send.
    pub fn queue(&mut self, msg: Msg)
        ensures
            final(self).spec_outbound() == old(self).spec_outbound().push(msg),
            final(self).spec_state() == old(self).spec_state(),
            final(self).spec_pending() == old(self).spec_pending(),
    {
        self.outbound.push_back(msg);
    }

    /// A message from the peer: passed on as it is.
    pub fn push_msg(&mut self, msg: &mut Msg) -> (r: Result<(), i32>)
        ensures
            r is Ok,
            *final(msg) == *old(msg),
            final(self).spec_state() == old(self).spec_state(),
            final(self).spec_pending() == old(self).spec_pending(),
            final(self).spec_outbound() == old(self).spec_outbound(),
    {
        Ok(())
    }

    /// The next frame to send: first a message's group, flagged MORE, then
    /// its body.  `EAGAIN` when there is nothing to send.
    pub fn pull_msg(&mut self, msg: &mut Msg) -> (r: Result<(), i32>)
        ensures
            pull_step(
                (old(self).spec_state(), old(self).spec_pending(), old(self).spec_outbound()),
                *old(msg),
                (final(self).spec_state(), final(self).spec_pending(), final(self).spec_outbound()),
                *final(msg),
                r,
            ),
    {
        match self.state {
            SessionState::Group => {
                if self.pending_msg.is_none() {
                    self.pending_msg = self.outbound.pop_front();
                }
                match self.pending_msg.take() {
                    Some(pending) => {
                        let group = vstd::slice::slice_to_vec(pending.group());
                        *msg = Msg { kind: MsgKind::Data, group: Vec::new(), data: group, flags: MSG_MORE };
                        self.pending_msg = Some(pending);
                        self.state = SessionState::Body;
                        Ok(())
                    },
                    None => Err(EAGAIN),
                }
            },
            SessionState::Body => {
                match self.pending_msg.take() {
                    Some(pending) => {
                        *msg = pending;
                        self.state = SessionState::Group;
                        Ok(())
                    },
                    None => Err(EAGAIN),
                }
            },
        }
    }

    pub fn reset(&mut self)
        ensures
            final(self).spec_state() == SessionState::Group,
            final(self).spec_pending() is None,
            final(self).spec_outbound() == old(self).spec_outbound(),
    {
        self.state = SessionState::Group;
        self.pending_msg = None;
    }
}

/// `subscribers` holds a pipe exactly when the pipe has a subscription
/// whose group equals `group`.
proof fn lemma_subscribers_exact(subs: Seq<(Seq<u8>, u64)>, group: Seq<u8>, p: u64)
    ensures
        subscribers(subs, group).contains(p) <==> exists|k: int|
            0 <= k < subs.len() && #[trigger] subs[k] == (group, p),
    decreases subs.len(),
{
    if subs.len() > 0 {
        let init = subs.drop_last();
        lemma_subscribers_exact(init, group, p);
        let rest = subscribers(init, group);
        if exists|k: int| 0 <= k < subs.len() && #[trigger] subs[k] == (group, p) {
            let k = choose|k: int| 0 <= k < subs.len() && #[trigger] subs[k] == (group, p);
            if k < subs.len() - 1 {
                assert(init[k] == subs[k]);
                assert(rest.contains(p));
                if subs.last().0 == group {
                    assert(rest.push(subs.last().1)[rest.index_of(p)] == p);
                }
            } else {
                assert(rest.push(p)[rest.len() as int] == p);
            }
        }
        if subscribers(subs, group).contains(p) {
            if subs.last().0 == group && subs.last().1 == p {
                assert(subs[subs.len() - 1] == (group, p));
            } else {
                let s = subscribers(subs, group);
                let i = s.index_of(p);
                if subs.last().0 == group {
                    assert(i < rest.len());
                    assert(rest[i] == p);
                }
                assert(rest.contains(p));
                let k = choose|k: int| 0 <= k < init.len() && #[trigger] init[k] == (group, p);
                assert(subs[k] == init[k]);
            }
        }
    }
}

/// Matching each of `pipes` in turn matches exactly what was matched before
/// and the pipes.
proof fn lemma_match_all_contains(matching: Seq<u64>, pipes: Seq<u64>, p: u64)
    ensures
        match_all(matching, pipes).contains(p) <==> matching.contains(p) || pipes.contains(p),
    decreases pipes.len(),
{
    if pipes.len() > 0 {
        let init = pipes.drop_last();
        lemma_match_all_contains(matching, init, p);
        let m = match_all(matching, init);
        let q = pipes.last();
        if pipes.contains(p) {
            let k = pipes.index_of(p);
            if k < pipes.len() - 1 {
                assert(init[k] == p);
            }
        }
        if init.contains(p) {
            let k = init.index_of(p);
            assert(pipes[k] == p);
        }
        if !m.contains(q) {
            assert(m.push(q)[m.len() as int] == q);
            if m.push(q).contains(p) && p != q {
                let i = m.push(q).index_of(p);
                assert(m[i] == p);
            }
            if m.contains(p) {
                let i = m.index_of(p);
                assert(m.push(q)[i] == p);
            }
        }
    }
}

/// The pipes a single-part message is sent to are exactly the UDP pipes and
/// the pipes with a subscription whose group equals the message's group:
/// a subscription to another group, even one the message's group begins
/// with, does not bring the message to its pipe.
pub proof fn law_send_targets_exact_group(
    subs: Seq<(Seq<u8>, u64)>,
    udp: Seq<u64>,
    group: Seq<u8>,
    p: u64,
)
    ensures
        match_all(match_all(Seq::<u64>::empty(), subscribers(subs, group)), udp).contains(p) <==> (
        udp.contains(p) || exists|k: int| 0 <= k < subs.len() && #[trigger] subs[k] == (group, p)),
{
    lemma_match_all_contains(match_all(Seq::<u64>::empty(), subscribers(subs, group)), udp, p);
    lemma_match_all_contains(Seq::<u64>::empty(), subscribers(subs, group), p);
    lemma_subscribers_exact(subs, group, p);
}

} // verus!
