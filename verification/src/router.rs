use crate::mechanism::bytes_equal;
use std::collections::VecDeque;
use std::sync::Arc;
use vstd::prelude::*;

verus! {

pub const ZMQ_ROUTER_MANDATORY: i32 = 54;
pub const ZMQ_ROUTER_RAW: i32 = 41;
pub const ZMQ_ROUTER_HANDOVER: i32 = 55;
pub const ZMQ_PROBE_ROUTER: i32 = 51;

/// Invalid argument.
pub const EINVAL: i32 = 22;

/// Flag bit: more parts follow.
pub const MSG_MORE: u8 = 1;

/// A byte string: a routing id.
#[derive(Clone)]
pub struct Blob {
    data: Vec<u8>,
}

impl Blob {
    pub closed spec fn bytes(&self) -> Seq<u8> {
        self.data@
    }

    pub fn new() -> (b: Self)
        ensures
            b.bytes() == Seq::<u8>::empty(),
    {
        Self { data: Vec::new() }
    }

    pub fn from_slice(data: &[u8]) -> (b: Self)
        ensures
            b.bytes() == data@,
    {
        Self { data: vstd::slice::slice_to_vec(data) }
    }

    pub fn len(&self) -> (n: usize)
        ensures
            n == self.bytes().len(),
    {
        self.data.len()
    }
}

/// Properties a message carries from its connection.
pub struct Metadata {}

/// A message: body, flag bits and the metadata of its connection.
pub struct Msg {
    data: Vec<u8>,
    flags: u8,
    metadata: Option<Arc<Metadata>>,
}

impl Msg {
    pub closed spec fn body(&self) -> Seq<u8> {
        self.data@
    }

    pub closed spec fn flag_bits(&self) -> u8 {
        self.flags
    }

    pub fn new() -> (m: Self)
        ensures
            m.body() == Seq::<u8>::empty(),
            m.flag_bits() == 0,
    {
        Self { data: Vec::new(), flags: 0, metadata: None }
    }

    pub fn set_flags(&mut self, flags: u8)
        ensures
            final(self).flag_bits() == flags,
            final(self).body() == old(self).body(),
    {
        self.flags = flags;
    }

    pub fn has_more(&self) -> (r: bool)
        ensures
            r == (self.flag_bits() & MSG_MORE != 0),
    {
        self.flags & MSG_MORE != 0
    }
}

/// A pipe to a peer: its identity, the routing id the router gave it,
/// whether it takes writes, what the peer has sent and not yet been read,
/// and what was written to it.
pub struct Pipe {
    id: u64,
    routing_id: Blob,
    active: bool,
    inbound: VecDeque<Vec<u8>>,
    written: Vec<Vec<u8>>,
}

impl Pipe {
    pub closed spec fn spec_id(&self) -> u64 {
        self.id
    }

    pub closed spec fn spec_routing_id(&self) -> Seq<u8> {
        self.routing_id.bytes()
    }

    pub closed spec fn spec_active(&self) -> bool {
        self.active
    }

    pub closed spec fn spec_inbound(&self) -> Seq<Seq<u8>> {
        self.inbound@.map_values(|m: Vec<u8>| m@)
    }

    pub closed spec fn spec_written(&self) -> Seq<Seq<u8>> {
        self.written@.map_values(|m: Vec<u8>| m@)
    }

    /// A pipe with identity `id` whose peer has sent the frames `inbound`.
    pub fn new(id: u64, inbound: Vec<Vec<u8>>) -> (p: Self)
        ensures
            p.spec_id() == id,
            p.spec_routing_id() == Seq::<u8>::empty(),
            p.spec_active(),
            p.spec_inbound() == inbound@.map_values(|m: Vec<u8>| m@),
            p.spec_written() == Seq::<Seq<u8>>::empty(),
    {
        let mut q: VecDeque<Vec<u8>> = VecDeque::new();
        let mut i: usize = 0;
        let mut inbound = inbound;
        let ghost all = inbound@;
        while inbound.len() > 0
            invariant
                q@.map_values(|m: Vec<u8>| m@) + inbound@.map_values(|m: Vec<u8>| m@) == all.map_values(
                    |m: Vec<u8>| m@,
                ),
            decreases inbound@.len(),
        {
            let first = inbound.remove(0);
            let ghost before_q = q@;
            q.push_back(first);
            assert(q@.map_values(|m: Vec<u8>| m@) =~= before_q.map_values(|m: Vec<u8>| m@).push(first@));
        }
        assert(inbound@.map_values(|m: Vec<u8>| m@) =~= Seq::<Seq<u8>>::empty());
        assert(q@.map_values(|m: Vec<u8>| m@) =~= all.map_values(|m: Vec<u8>| m@));
        let p = Self { id, routing_id: Blob::new(), active: true, inbound: q, written: Vec::new() };
        assert(p.spec_written() =~= Seq::<Seq<u8>>::empty());
        p
    }

    pub fn routing_id(&self) -> (r: &[u8])
        ensures
            r@ == self.spec_routing_id(),
    {
        self.routing_id.data.as_slice()
    }

    pub fn written_count(&self) -> (n: usize)
        ensures
            n == self.spec_written().len(),
    {
        self.written.len()
    }

    fn set_routing_id(&mut self, id: Blob)
        ensures
            final(self).spec_routing_id() == id.bytes(),
            final(self).spec_id() == old(self).spec_id(),
            final(self).spec_active() == old(self).spec_active(),
            final(self).spec_inbound() == old(self).spec_inbound(),
            final(self).spec_written() == old(self).spec_written(),
    {
        self.routing_id = id;
    }

    fn check_write(&self) -> (r: bool)
        ensures
            r == self.spec_active(),
    {
        self.active
    }

    fn check_hwm(&self) -> (r: bool)
        ensures
            r,
    {
        true
    }

    /// Reads the next frame the peer sent, if any.
    fn read(&mut self) -> (r: Option<Vec<u8>>)
        ensures
            old(self).spec_inbound().len() == 0 ==> r is None && final(self).spec_inbound()
                == old(self).spec_inbound(),
            old(self).spec_inbound().len() > 0 ==> r is Some && r->0@ == old(self).spec_inbound()[0]
                && final(self).spec_inbound() == old(self).spec_inbound().drop_first(),
            final(self).spec_id() == old(self).spec_id(),
            final(self).spec_routing_id() == old(self).spec_routing_id(),
            final(self).spec_active() == old(self).spec_active(),
            final(self).spec_written() == old(self).spec_written(),
    {
        let r = self.inbound.pop_front();
        proof {
            if old(self).inbound@.len() > 0 {
                assert(self.spec_inbound() =~= old(self).spec_inbound().drop_first());
            } else {
                assert(self.spec_inbound() =~= old(self).spec_inbound());
            }
        }
        r
    }

    /// Writes a frame to the peer.
    fn write(&mut self, msg: &Msg)
        ensures
            final(self).spec_written() == old(self).spec_written().push(msg.body()),
            final(self).spec_id() == old(self).spec_id(),
            final(self).spec_routing_id() == old(self).spec_routing_id(),
            final(self).spec_active() == old(self).spec_active(),
            final(self).spec_inbound() == old(self).spec_inbound(),
    {
        self.written.push(vstd::slice::slice_to_vec(msg.data.as_slice()));
        assert(self.spec_written() =~= old(self).spec_written().push(msg.body()));
    }
}

/// The routing ids of a ROUTER's peers and the pipe each names, with no id
/// twice.
struct RoutingTable {
    entries: Vec<(Vec<u8>, u64)>,
}

impl RoutingTable {
    spec fn key_at(&self, i: int) -> Seq<u8> {
        self.entries@[i].0@
    }

    spec fn wf(&self) -> bool {
        forall|i: int, j: int|
            0 <= i < j < self.entries@.len() ==> #[trigger] self.key_at(i) != #[trigger] self.key_at(
                j,
            )
    }

    spec fn has(&self, k: Seq<u8>) -> bool {
        exists|i: int| 0 <= i < self.entries@.len() && #[trigger] self.key_at(i) == k
    }

    spec fn index_of(&self, k: Seq<u8>) -> int {
        choose|i: int| 0 <= i < self.entries@.len() && #[trigger] self.key_at(i) == k
    }

    spec fn map(&self) -> Map<Seq<u8>, u64> {
        Map::new(|k: Seq<u8>| self.has(k), |k: Seq<u8>| self.entries@[self.index_of(k)].1)
    }

    proof fn lemma_index(&self, i: int)
        requires
            self.wf(),
            0 <= i < self.entries@.len(),
        ensures
            self.has(self.key_at(i)),
            self.index_of(self.key_at(i)) == i,
            self.map()[self.key_at(i)] == self.entries@[i].1,
    {
        let k = self.key_at(i);
        assert(self.has(k));
        let j = self.index_of(k);
        if j != i {
            if j < i {
                assert(self.key_at(j) != self.key_at(i));
            } else {
                assert(self.key_at(i) != self.key_at(j));
            }
        }
    }

    fn new() -> (t: Self)
        ensures
            t.wf(),
            t.map() == Map::<Seq<u8>, u64>::empty(),
    {
        let t = RoutingTable { entries: Vec::new() };
        assert(t.map() =~= Map::<Seq<u8>, u64>::empty());
        t
    }

    fn find(&self, key: &[u8]) -> (r: Option<usize>)
        requires
            self.wf(),
        ensures
            match r {
                Some(i) => i < self.entries@.len() && self.key_at(i as int) == key@,
                None => !self.has(key@),
            },
            r is Some <==> self.map().contains_key(key@),
    {
        let mut i: usize = 0;
        while i < self.entries.len()
            invariant
                i <= self.entries@.len(),
                forall|j: int| 0 <= j < i ==> #[trigger] self.key_at(j) != key@,
            decreases self.entries@.len() - i,
        {
            if bytes_equal(self.entries[i].0.as_slice(), key) {
                assert(self.key_at(i as int) == key@);
                assert(self.has(key@));
                return Some(i);
            }
            i += 1;
        }
        None
    }

    fn contains(&self, key: &[u8]) -> (r: bool)
        requires
            self.wf(),
        ensures
            r == self.map().contains_key(key@),
    {
        self.find(key).is_some()
    }

    fn get(&self, key: &[u8]) -> (r: Option<u64>)
        requires
            self.wf(),
        ensures
            match r {
                Some(v) => self.map().contains_key(key@) && self.map()[key@] == v,
                None => !self.map().contains_key(key@),
            },
    {
        match self.find(key) {
            Some(i) => {
                proof {
                    self.lemma_index(i as int);
                }
                Some(self.entries[i].1)
            },
            None => None,
        }
    }

    fn insert(&mut self, key: Vec<u8>, value: u64)
        requires
            old(self).wf(),
        ensures
            final(self).wf(),
            final(self).map() == old(self).map().insert(key@, value),
    {
        let ghost k = key@;
        match self.find(key.as_slice()) {
            Some(i) => {
                self.entries.set(i, (key, value));
                proof {
                    assert forall|a: int, b: int|
                        0 <= a < b < self.entries@.len() implies #[trigger] self.key_at(a)
                        != #[trigger] self.key_at(b) by {
                        assert(old(self).key_at(a) != old(self).key_at(b));
                    }
                    assert forall|k2: Seq<u8>| #[trigger]
                        self.map().contains_key(k2) == old(self).map().insert(k, value).contains_key(
                            k2,
                        ) by {
                        if k2 == k {
                            assert(self.key_at(i as int) == k2);
                        }
                        if self.has(k2) {
                            let j = choose|j: int|
                                0 <= j < self.entries@.len() && #[trigger] self.key_at(j) == k2;
                            if j != i {
                                assert(old(self).key_at(j) == k2);
                            }
                        }
                        if old(self).has(k2) {
                            let j = choose|j: int|
                                0 <= j < old(self).entries@.len() && #[trigger] old(self).key_at(j)
                                    == k2;
                            if j != i {
                                assert(self.key_at(j) == k2);
                            }
                        }
                    }
                    assert forall|k2: Seq<u8>| #[trigger]
                        self.map().contains_key(k2) implies self.map()[k2] == old(self).map().insert(
                        k,
                        value,
                    )[k2] by {
                        let j = self.index_of(k2);
                        self.lemma_index(j);
                        if j != i {
                            old(self).lemma_index(j);
                        }
                    }
                    assert(self.map() =~= old(self).map().insert(k, value));
                }
            },
            None => {
                self.entries.push((key, value));
                proof {
                    let n = old(self).entries@.len() as int;
                    assert(self.key_at(n) == k);
                    assert forall|a: int, b: int|
                        0 <= a < b < self.entries@.len() implies #[trigger] self.key_at(a)
                        != #[trigger] self.key_at(b) by {
                        if b < n {
                            assert(old(self).key_at(a) != old(self).key_at(b));
                        } else {
                            assert(old(self).key_at(a) == self.key_at(a));
                        }
                    }
                    assert forall|k2: Seq<u8>| #[trigger]
                        self.map().contains_key(k2) == old(self).map().insert(k, value).contains_key(
                            k2,
                        ) by {
                        if self.has(k2) {
                            let j = choose|j: int|
                                0 <= j < self.entries@.len() && #[trigger] self.key_at(j) == k2;
                            if j != n {
                                assert(old(self).key_at(j) == k2);
                            }
                        }
                        if old(self).has(k2) {
                            let j = choose|j: int|
                                0 <= j < old(self).entries@.len() && #[trigger] old(self).key_at(j)
                                    == k2;
                            assert(self.key_at(j) == k2);
                        }
                    }
                    assert forall|k2: Seq<u8>| #[trigger]
                        self.map().contains_key(k2) implies self.map()[k2] == old(self).map().insert(
                        k,
                        value,
                    )[k2] by {
                        let j = self.index_of(k2);
                        self.lemma_index(j);
                        if j != n {
                            old(self).lemma_index(j);
                        }
                    }
                    assert(self.map() =~= old(self).map().insert(k, value));
                }
            },
        }
    }

    fn remove(&mut self, key: &[u8])
        requires
            old(self).wf(),
        ensures
            final(self).wf(),
            final(self).map() == old(self).map().remove(key@),
    {
        let ghost k = key@;
        match self.find(key) {
            Some(i) => {
                self.entries.remove(i);
                proof {
                    let n = old(self).entries@.len() as int;
                    assert forall|a: int| 0 <= a < self.entries@.len() implies #[trigger] self.key_at(
                        a,
                    ) == old(self).key_at(if a < i {
                        a
                    } else {
                        a + 1
                    }) by {}
                    assert forall|a: int, b: int|
                        0 <= a < b < self.entries@.len() implies #[trigger] self.key_at(a)
                        != #[trigger] self.key_at(b) by {
                        let a0 = if a < i {
                            a
                        } else {
                            a + 1
                        };
                        let b0 = if b < i {
                            b
                        } else {
                            b + 1
                        };
                        assert(self.key_at(a) == old(self).key_at(a0));
                        assert(self.key_at(b) == old(self).key_at(b0));
                        assert(old(self).key_at(a0) != old(self).key_at(b0));
                    }
                    assert forall|k2: Seq<u8>| #[trigger]
                        self.map().contains_key(k2) == old(self).map().remove(k).contains_key(k2) by {
                        if self.has(k2) {
                            let j = choose|j: int|
                                0 <= j < self.entries@.len() && #[trigger] self.key_at(j) == k2;
                            let j0 = if j < i {
                                j
                            } else {
                                j + 1
                            };
                            assert(self.key_at(j) == old(self).key_at(j0));
                            assert(old(self).key_at(j0) == k2);
                            if k2 == k {
                                if j0 < i {
                                    assert(old(self).key_at(j0) != old(self).key_at(i as int));
                                } else {
                                    assert(old(self).key_at(i as int) != old(self).key_at(j0));
                                }
                            }
                        }
                        if old(self).has(k2) && k2 != k {
                            let j0 = choose|j: int|
                                0 <= j < old(self).entries@.len() && #[trigger] old(self).key_at(j)
                                    == k2;
                            assert(j0 != i);
                            let j = if j0 < i {
                                j0
                            } else {
                                j0 - 1
                            };
                            assert(self.key_at(j) == old(self).key_at(j0));
                        }
                    }
                    assert forall|k2: Seq<u8>| #[trigger]
                        self.map().contains_key(k2) implies self.map()[k2] == old(self).map().remove(
                        k,
                    )[k2] by {
                        let j = self.index_of(k2);
                        self.lemma_index(j);
                        let j0 = if j < i {
                            j
                        } else {
                            j + 1
                        };
                        assert(self.key_at(j) == old(self).key_at(j0));
                        old(self).lemma_index(j0);
                    }
                    assert(self.map() =~= old(self).map().remove(k));
                }
            },
            None => {
                assert(self.map() =~= old(self).map().remove(k));
            },
        }
    }
}

/// The routing id a ROUTER makes up from its counter: a zero byte, then the
/// counter's four bytes, most significant first.
pub open spec fn generated_routing_id(n: u32) -> Seq<u8> {
    seq![0u8] + crate::mechanism::be32(n)
}

/// The counter after one routing id was made up from it.
pub open spec fn next_counter(n: u32) -> u32 {
    if n == u32::MAX {
        0
    } else {
        (n + 1) as u32
    }
}

fn make_routing_id(n: u32) -> (b: Blob)
    ensures
        b.bytes() == generated_routing_id(n),
{
    let mut buf: Vec<u8> = Vec::new();
    buf.push(0u8);
    crate::mechanism::put_u32_be(&mut buf, n);
    Blob { data: buf }
}

/// The inbound pipes a ROUTER reads from, in order.
struct FairQueue {
    pipes: Vec<u64>,
}

impl FairQueue {
    fn new() -> (q: Self)
        ensures
            q.pipes@ == Seq::<u64>::empty(),
    {
        Self { pipes: Vec::new() }
    }

    fn attach(&mut self, pipe: u64)
        ensures
            final(self).pipes@ == old(self).pipes@.push(pipe),
    {
        self.pipes.push(pipe);
    }
}

/// A ROUTER socket: names each peer by a routing id and routes replies by
/// it.
pub struct Router {
    fq: FairQueue,
    prefetched: bool,
    routing_id_sent: bool,
    prefetched_id: Msg,
    prefetched_msg: Msg,
    current_in: Option<u64>,
    terminate_current_in: bool,
    current_out: Option<u64>,
    more_in: bool,
    more_out: bool,
    anonymous_pipes: Vec<u64>,
    out_pipes: RoutingTable,
    mandatory: bool,
    raw_socket: bool,
    probe_router: bool,
    handover: bool,
    connect_routing_id: Vec<u8>,
    next_routing_id: u32,
}

impl Router {
    pub closed spec fn wf(&self) -> bool {
        self.out_pipes.wf()
    }

    /// The pipe each routing id names.
    pub closed spec fn routes(&self) -> Map<Seq<u8>, u64> {
        self.out_pipes.map()
    }

    /// The pipes read from, in order.
    pub closed spec fn inbound_pipes(&self) -> Seq<u64> {
        self.fq.pipes@
    }

    /// The pipes whose peer gave no usable routing id.
    pub closed spec fn anonymous(&self) -> Seq<u64> {
        self.anonymous_pipes@
    }

    pub closed spec fn spec_next_routing_id(&self) -> u32 {
        self.next_routing_id
    }

    pub closed spec fn spec_connect_routing_id(&self) -> Seq<u8> {
        self.connect_routing_id@
    }

    pub closed spec fn spec_current_in(&self) -> Option<u64> {
        self.current_in
    }

    pub closed spec fn spec_terminate_current_in(&self) -> bool {
        self.terminate_current_in
    }

    pub closed spec fn spec_raw_socket(&self) -> bool {
        self.raw_socket
    }

    pub closed spec fn spec_handover(&self) -> bool {
        self.handover
    }

    pub closed spec fn spec_probe_router(&self) -> bool {
        self.probe_router
    }

    pub closed spec fn spec_mandatory(&self) -> bool {
        self.mandatory
    }

    pub fn new() -> (r: Self)
        ensures
            r.wf(),
            r.routes() == Map::<Seq<u8>, u64>::empty(),
            r.inbound_pipes() == Seq::<u64>::empty(),
            r.anonymous() == Seq::<u64>::empty(),
            r.spec_next_routing_id() == 0,
            r.spec_connect_routing_id() == Seq::<u8>::empty(),
            r.spec_current_in() is None,
            !r.spec_terminate_current_in(),
            !r.spec_raw_socket(),
            !r.spec_handover(),
            !r.spec_probe_router(),
            !r.spec_mandatory(),
    {
        Self {
            fq: FairQueue::new(),
            prefetched: false,
            routing_id_sent: false,
            prefetched_id: Msg::new(),
            prefetched_msg: Msg::new(),
            current_in: None,
            terminate_current_in: false,
            current_out: None,
            more_in: false,
            more_out: false,
            anonymous_pipes: Vec::new(),
            out_pipes: RoutingTable::new(),
            mandatory: false,
            raw_socket: false,
            probe_router: false,
            handover: false,
            connect_routing_id: Vec::new(),
            next_routing_id: 0,
        }
    }

    /// Sets a ROUTER option to `value != 0`: mandatory routing, raw mode,
    /// handover of routing ids, or probing new peers.  Other options are
    /// refused with `EINVAL`.
    pub fn set_sockopt(&mut self, option: i32, value: i32) -> (r: Result<(), i32>)
        ensures
            final(self).wf() == old(self).wf(),
            final(self).routes() == old(self).routes(),
            final(self).inbound_pipes() == old(self).inbound_pipes(),
            final(self).anonymous() == old(self).anonymous(),
            final(self).spec_next_routing_id() == old(self).spec_next_routing_id(),
            final(self).spec_connect_routing_id() == old(self).spec_connect_routing_id(),
            final(self).spec_current_in() == old(self).spec_current_in(),
            final(self).spec_terminate_current_in() == old(self).spec_terminate_current_in(),
            r is Ok <==> (option == ZMQ_ROUTER_MANDATORY || option == ZMQ_ROUTER_RAW || option
                == ZMQ_ROUTER_HANDOVER || option == ZMQ_PROBE_ROUTER),
            r is Err ==> r == Err::<(), i32>(EINVAL),
            final(self).spec_mandatory() == if option == ZMQ_ROUTER_MANDATORY {
                value != 0
            } else {
                old(self).spec_mandatory()
            },
            final(self).spec_raw_socket() == if option == ZMQ_ROUTER_RAW {
                value != 0
            } else {
                old(self).spec_raw_socket()
            },
            final(self).spec_handover() == if option == ZMQ_ROUTER_HANDOVER {
                value != 0
            } else {
                old(self).spec_handover()
            },
            final(self).spec_probe_router() == if option == ZMQ_PROBE_ROUTER {
                value != 0
            } else {
                old(self).spec_probe_router()
            },
    {
        if option == ZMQ_ROUTER_MANDATORY {
            self.mandatory = value != 0;
            Ok(())
        } else if option == ZMQ_ROUTER_RAW {
            self.raw_socket = value != 0;
            Ok(())
        } else if option == ZMQ_ROUTER_HANDOVER {
            self.handover = value != 0;
            Ok(())
        } else if option == ZMQ_PROBE_ROUTER {
            self.probe_router = value != 0;
            Ok(())
        } else {
            Err(EINVAL)
        }
    }

    /// The routing id the next locally initiated peer gets.
    pub fn set_connect_routing_id(&mut self, id: Vec<u8>)
        ensures
            final(self).spec_connect_routing_id() == id@,
            final(self).wf() == old(self).wf(),
            final(self).routes() == old(self).routes(),
            final(self).inbound_pipes() == old(self).inbound_pipes(),
            final(self).anonymous() == old(self).anonymous(),
            final(self).spec_next_routing_id() == old(self).spec_next_routing_id(),
            final(self).spec_current_in() == old(self).spec_current_in(),
            final(self).spec_terminate_current_in() == old(self).spec_terminate_current_in(),
            final(self).spec_raw_socket() == old(self).spec_raw_socket(),
            final(self).spec_handover() == old(self).spec_handover(),
            final(self).spec_probe_router() == old(self).spec_probe_router(),
            final(self).spec_mandatory() == old(self).spec_mandatory(),
    {
        self.connect_routing_id = id;
    }

    /// Takes on a new pipe: probes it if asked to, then reads from it if
    /// its peer could be named, or keeps it aside as anonymous.
    pub fn attach_pipe(&mut self, pipe: &mut Pipe, locally_initiated: bool)
        requires
            old(self).wf(),
        ensures
            final(self).wf(),
            final(pipe).spec_written() == if old(self).spec_probe_router() {
                old(pipe).spec_written().push(Seq::<u8>::empty())
            } else {
                old(pipe).spec_written()
            },
            identified(*old(self), *final(self), *old(pipe), *final(pipe), locally_initiated)
                ==> final(self).inbound_pipes() == old(self).inbound_pipes().push(old(pipe).spec_id())
                && final(self).anonymous() == old(self).anonymous(),
            !identified(*old(self), *final(self), *old(pipe), *final(pipe), locally_initiated)
                ==> final(self).inbound_pipes() == old(self).inbound_pipes() && final(self).anonymous()
                == old(self).anonymous().push(old(pipe).spec_id()),
            identify_outcome(*old(self), *final(self), *old(pipe), *final(pipe), locally_initiated),
    {
        if self.probe_router {
            let msg = Msg::new();
            pipe.write(&msg);
        }
        let ghost probed = *pipe;
        let id = pipe.id;
        let ok = self.identify_peer(pipe, locally_initiated);
        if ok {
            self.fq.attach(id);
        } else {
            self.anonymous_pipes.push(id);
        }
        proof {
            assert(identify_outcome(*old(self), *self, *old(pipe), *pipe, locally_initiated));
        }
    }

    /// Names the peer of `pipe`: by the connect routing id for a locally
    /// initiated pipe when one is set (refused if taken), by a made-up id
    /// in raw mode, else by the first frame the peer sends (a made-up id if
    /// it is empty).  A taken id is refused, or with handover moves the
    /// pipe that had it to a made-up id.  Returns whether the peer was
    /// named; if so the routing table maps the id to the pipe.
    fn identify_peer(&mut self, pipe: &mut Pipe, locally_initiated: bool) -> (r: bool)
        requires
            old(self).wf(),
        ensures
            final(self).wf(),
            r == identified(*old(self), *final(self), *old(pipe), *final(pipe), locally_initiated),
            identify_outcome(*old(self), *final(self), *old(pipe), *final(pipe), locally_initiated),
            final(self).inbound_pipes() == old(self).inbound_pipes(),
            final(self).anonymous() == old(self).anonymous(),
            final(pipe).spec_written() == old(pipe).spec_written(),
            final(pipe).spec_id() == old(pipe).spec_id(),
    {
        let routing_id: Blob;
        if locally_initiated && self.connect_routing_id.len() > 0 {
            let mut taken: Vec<u8> = Vec::new();
            std::mem::swap(&mut taken, &mut self.connect_routing_id);
            if self.out_pipes.contains(taken.as_slice()) {
                return false;
            }
            routing_id = Blob { data: taken };
        } else if self.raw_socket {
            routing_id = make_routing_id(self.next_routing_id);
            self.next_routing_id = self.next_routing_id.wrapping_add(1);
        } else {
            let first = pipe.read();
            match first {
                None => {
                    return false;
                },
                Some(data) => {
                    if data.len() == 0 {
                        routing_id = make_routing_id(self.next_routing_id);
                        self.next_routing_id = self.next_routing_id.wrapping_add(1);
                    } else {
                        match self.out_pipes.get(data.as_slice()) {
                            Some(existing) => {
                                if !self.handover {
                                    return false;
                                }
                                let new_id = make_routing_id(self.next_routing_id);
                                self.next_routing_id = self.next_routing_id.wrapping_add(1);
                                self.out_pipes.remove(data.as_slice());
                                self.out_pipes.insert(new_id.data, existing);
                                if self.current_in == Some(existing) {
                                    self.terminate_current_in = true;
                                }
                            },
                            None => {},
                        }
                        routing_id = Blob { data };
                    }
                },
            }
        }
        let key = routing_id.data;
        pipe.set_routing_id(Blob::from_slice(key.as_slice()));
        self.out_pipes.insert(key, pipe.id);
        true
    }
}

/// Whether attaching `pipe` to `r` names its peer (see
/// `identify_outcome`).
pub open spec fn identified(r: Router, r2: Router, pipe: Pipe, pipe2: Pipe, local: bool) -> bool {
    if local && r.spec_connect_routing_id().len() > 0 {
        !r.routes().contains_key(r.spec_connect_routing_id())
    } else if r.spec_raw_socket() {
        true
    } else if pipe.spec_inbound().len() == 0 {
        false
    } else {
        let first = pipe.spec_inbound()[0];
        first.len() == 0 || !r.routes().contains_key(first) || r.spec_handover()
    }
}

/// What naming the peer of `pipe` does to the router and the pipe.
pub open spec fn identify_outcome(r: Router, r2: Router, pipe: Pipe, pipe2: Pipe, local: bool) -> bool {
    let n = r.spec_next_routing_id();
    let auto = generated_routing_id(n);
    &&& r2.spec_raw_socket() == r.spec_raw_socket()
    &&& r2.spec_handover() == r.spec_handover()
    &&& r2.spec_probe_router() == r.spec_probe_router()
    &&& r2.spec_mandatory() == r.spec_mandatory()
    &&& r2.spec_current_in() == r.spec_current_in()
    &&& pipe2.spec_id() == pipe.spec_id()
    &&& pipe2.spec_active() == pipe.spec_active()
    &&& if local && r.spec_connect_routing_id().len() > 0 {
        let id = r.spec_connect_routing_id();
        &&& r2.spec_connect_routing_id() == Seq::<u8>::empty()
        &&& r2.spec_next_routing_id() == n
        &&& r2.spec_terminate_current_in() == r.spec_terminate_current_in()
        &&& pipe2.spec_inbound() == pipe.spec_inbound()
        &&& if r.routes().contains_key(id) {
            r2.routes() == r.routes() && pipe2.spec_routing_id() == pipe.spec_routing_id()
        } else {
            r2.routes() == r.routes().insert(id, pipe.spec_id()) && pipe2.spec_routing_id() == id
        }
    } else if r.spec_raw_socket() {
        &&& r2.spec_connect_routing_id() == r.spec_connect_routing_id()
        &&& r2.spec_next_routing_id() == next_counter(n)
        &&& r2.spec_terminate_current_in() == r.spec_terminate_current_in()
        &&& pipe2.spec_inbound() == pipe.spec_inbound()
        &&& r2.routes() == r.routes().insert(auto, pipe.spec_id())
        &&& pipe2.spec_routing_id() == auto
    } else if pipe.spec_inbound().len() == 0 {
        &&& r2.spec_connect_routing_id() == r.spec_connect_routing_id()
        &&& r2.spec_next_routing_id() == n
        &&& r2.spec_terminate_current_in() == r.spec_terminate_current_in()
        &&& pipe2.spec_inbound() == pipe.spec_inbound()
        &&& r2.routes() == r.routes()
        &&& pipe2.spec_routing_id() == pipe.spec_routing_id()
    } else {
        let first = pipe.spec_inbound()[0];
        &&& r2.spec_connect_routing_id() == r.spec_connect_routing_id()
        &&& pipe2.spec_inbound() == pipe.spec_inbound().drop_first()
        &&& if first.len() == 0 {
            &&& r2.spec_next_routing_id() == next_counter(n)
            &&& r2.spec_terminate_current_in() == r.spec_terminate_current_in()
            &&& r2.routes() == r.routes().insert(auto, pipe.spec_id())
            &&& pipe2.spec_routing_id() == auto
        } else if !r.routes().contains_key(first) {
            &&& r2.spec_next_routing_id() == n
            &&& r2.spec_terminate_current_in() == r.spec_terminate_current_in()
            &&& r2.routes() == r.routes().insert(first, pipe.spec_id())
            &&& pipe2.spec_routing_id() == first
        } else if !r.spec_handover() {
            &&& r2.spec_next_routing_id() == n
            &&& r2.spec_terminate_current_in() == r.spec_terminate_current_in()
            &&& r2.routes() == r.routes()
            &&& pipe2.spec_routing_id() == pipe.spec_routing_id()
        } else {
            let existing = r.routes()[first];
            &&& r2.spec_next_routing_id() == next_counter(n)
            &&& r2.spec_terminate_current_in() == (r.spec_terminate_current_in() || r.spec_current_in()
                == Some(existing))
            &&& r2.routes() == r.routes().remove(first).insert(auto, existing).insert(
                first,
                pipe.spec_id(),
            )
            &&& pipe2.spec_routing_id() == first
        }
    }
}


/// Routing ids made up from different counter values differ, and each is a
/// zero byte followed by four more.
pub proof fn law_generated_ids_distinct(a: u32, b: u32)
    ensures
        generated_routing_id(a).len() == 5,
        generated_routing_id(a)[0] == 0,
        a != b ==> generated_routing_id(a) != generated_routing_id(b),
{
    crate::mechanism::lemma_be32_round_trip(a);
    crate::mechanism::lemma_be32_round_trip(b);
    if a != b && generated_routing_id(a) == generated_routing_id(b) {
        assert(generated_routing_id(a).subrange(1, 5) =~= crate::mechanism::be32(a));
        assert(generated_routing_id(b).subrange(1, 5) =~= crate::mechanism::be32(b));
    }
}

/// A locally initiated pipe with a connect routing id that already routes
/// to a peer is refused: it is kept anonymous, the routing table is left as
/// it was (the id still routes where it did), and the pipe is not named.
pub proof fn law_duplicate_connect_id_refused(r: Router, r2: Router, pipe: Pipe, pipe2: Pipe)
    requires
        r.spec_connect_routing_id().len() > 0,
        r.routes().contains_key(r.spec_connect_routing_id()),
        identify_outcome(r, r2, pipe, pipe2, true),
    ensures
        !identified(r, r2, pipe, pipe2, true),
        r2.routes() == r.routes(),
        r2.routes()[r.spec_connect_routing_id()] == r.routes()[r.spec_connect_routing_id()],
        pipe2.spec_routing_id() == pipe.spec_routing_id(),
{
}

/// A locally initiated pipe with a connect routing id that routes nowhere
/// yet is accepted and named by that id, which now routes to it; no other
/// route changes.
pub proof fn law_fresh_connect_id_accepted(r: Router, r2: Router, pipe: Pipe, pipe2: Pipe)
    requires
        r.spec_connect_routing_id().len() > 0,
        !r.routes().contains_key(r.spec_connect_routing_id()),
        identify_outcome(r, r2, pipe, pipe2, true),
    ensures
        identified(r, r2, pipe, pipe2, true),
        pipe2.spec_routing_id() == r.spec_connect_routing_id(),
        r2.routes()[r.spec_connect_routing_id()] == pipe.spec_id(),
        forall|k: Seq<u8>| k != r.spec_connect_routing_id() ==> (#[trigger] r2.routes().contains_key(k)
            <==> r.routes().contains_key(k)),
{
}

/// A peer that announces a routing id already in use: without handover it
/// is refused and kept anonymous, the routes and its name unchanged; with
/// handover it takes the id, and the pipe that held it stays reachable under
/// a newly made-up id (unless the announced id is that very made-up id).
pub proof fn law_announced_id_in_use(r: Router, r2: Router, pipe: Pipe, pipe2: Pipe)
    requires
        !r.spec_raw_socket(),
        pipe.spec_inbound().len() > 0,
        pipe.spec_inbound()[0].len() > 0,
        r.routes().contains_key(pipe.spec_inbound()[0]),
        identify_outcome(r, r2, pipe, pipe2, false),
    ensures
        !r.spec_handover() ==> !identified(r, r2, pipe, pipe2, false) && r2.routes() == r.routes()
            && pipe2.spec_routing_id() == pipe.spec_routing_id(),
        r.spec_handover() ==> identified(r, r2, pipe, pipe2, false) && pipe2.spec_routing_id()
            == pipe.spec_inbound()[0] && r2.routes()[pipe.spec_inbound()[0]] == pipe.spec_id(),
        r.spec_handover() && pipe.spec_inbound()[0] != generated_routing_id(r.spec_next_routing_id())
            ==> r2.routes()[generated_routing_id(r.spec_next_routing_id())] == r.routes()[pipe.spec_inbound()[0]],
{
}

} // verus!
