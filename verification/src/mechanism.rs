use std::collections::VecDeque;
use vstd::prelude::*;

verus! {

/// Protocol error.
pub const EPROTO: i32 = 71;

/// Invalid argument.
pub const EINVAL: i32 = 22;

/// Resource temporarily unavailable.
pub const EAGAIN: i32 = 11;

/// Operation not allowed in the current state.
pub const EFSM: i32 = 156384763;

/// Connection refused.
pub const ECONNREFUSED: i32 = 111;

/// Bad address.
pub const EFAULT: i32 = 14;

/// A handshake command as the mechanisms see it: its bytes.
pub struct Msg {
    data: Vec<u8>,
}

impl Msg {
    pub closed spec fn body(&self) -> Seq<u8> {
        self.data@
    }

    pub fn new() -> (m: Self)
        ensures
            m.body() == Seq::<u8>::empty(),
    {
        Msg { data: Vec::new() }
    }

    pub fn from_bytes(data: Vec<u8>) -> (m: Self)
        ensures
            m.body() == data@,
    {
        Msg { data }
    }

    pub fn data(&self) -> (d: &[u8])
        ensures
            d@ == self.body(),
    {
        self.data.as_slice()
    }

    pub fn size(&self) -> (n: usize)
        ensures
            n == self.body().len(),
    {
        self.data.len()
    }

    pub fn set_data(&mut self, data: Vec<u8>)
        ensures
            final(self).body() == data@,
    {
        self.data = data;
    }

    pub fn init(&mut self) -> (r: Result<(), i32>)
        ensures
            r is Ok,
            final(self).body() == Seq::<u8>::empty(),
    {
        self.data = Vec::new();
        Ok(())
    }

    pub fn close(&mut self) -> (r: Result<(), i32>)
        ensures
            r is Ok,
            final(self).body() == Seq::<u8>::empty(),
    {
        self.data.clear();
        Ok(())
    }
}

/// A request to the ZAP handler: the mechanism's name and the credentials.
pub struct ZapRequest {
    mechanism: Vec<u8>,
    credentials: Vec<Vec<u8>>,
}

impl ZapRequest {
    pub closed spec fn spec_mechanism(&self) -> Seq<u8> {
        self.mechanism@
    }

    pub closed spec fn spec_credentials(&self) -> Seq<Seq<u8>> {
        self.credentials.deep_view()
    }

    pub fn new(mechanism: Vec<u8>, credentials: Vec<Vec<u8>>) -> (r: Self)
        ensures
            r.spec_mechanism() == mechanism@,
            r.spec_credentials() == credentials.deep_view(),
    {
        ZapRequest { mechanism, credentials }
    }

    /// The mechanism's name.
    pub fn mechanism(&self) -> (m: &[u8])
        ensures
            m@ == self.spec_mechanism(),
    {
        self.mechanism.as_slice()
    }

    /// The credentials, in order.
    pub fn credentials(&self) -> (c: &Vec<Vec<u8>>)
        ensures
            c.deep_view() == self.spec_credentials(),
    {
        &self.credentials
    }
}

/// What a mechanism reads of its session: whether a ZAP handler is bound,
/// the requests handed to it, and the status codes of the replies that have
/// come back and not yet been read.
pub struct ZapSession {
    handler_bound: bool,
    requests: Vec<ZapRequest>,
    replies: VecDeque<Vec<u8>>,
}

impl ZapSession {
    pub closed spec fn spec_handler_bound(&self) -> bool {
        self.handler_bound
    }

    pub closed spec fn spec_requests(&self) -> Seq<ZapRequest> {
        self.requests@
    }

    pub closed spec fn spec_replies(&self) -> Seq<Seq<u8>> {
        self.replies@.map_values(|r: Vec<u8>| r@)
    }

    pub fn new(handler_bound: bool) -> (s: Self)
        ensures
            s.spec_handler_bound() == handler_bound,
            s.spec_requests() == Seq::<ZapRequest>::empty(),
            s.spec_replies() == Seq::<Seq<u8>>::empty(),
    {
        let s = ZapSession { handler_bound, requests: Vec::new(), replies: VecDeque::new() };
        assert(s.spec_replies() =~= Seq::<Seq<u8>>::empty());
        s
    }

    /// The handler answers with this status code.
    pub fn push_reply(&mut self, status_code: Vec<u8>)
        ensures
            final(self).spec_replies() == old(self).spec_replies().push(status_code@),
            final(self).spec_requests() == old(self).spec_requests(),
            final(self).spec_handler_bound() == old(self).spec_handler_bound(),
    {
        self.replies.push_back(status_code);
        assert(self.spec_replies() =~= old(self).spec_replies().push(status_code@));
    }

    /// How many requests went to the handler.
    pub fn request_count(&self) -> (n: usize)
        ensures
            n == self.spec_requests().len(),
    {
        self.requests.len()
    }

    /// The `i`-th request handed to the handler.
    pub fn request(&self, i: usize) -> (r: &ZapRequest)
        requires
            i < self.spec_requests().len(),
        ensures
            *r == self.spec_requests()[i as int],
    {
        &self.requests[i]
    }

    /// Connects to the ZAP handler; refused when none is bound.
    pub fn zap_connect(&mut self) -> (r: Result<(), i32>)
        ensures
            r == if old(self).spec_handler_bound() {
                Ok::<(), i32>(())
            } else {
                Err::<(), i32>(ECONNREFUSED)
            },
            *final(self) == *old(self),
    {
        if self.handler_bound {
            Ok(())
        } else {
            Err(ECONNREFUSED)
        }
    }

    pub fn send_zap_request(&mut self, request: ZapRequest)
        ensures
            final(self).spec_requests() == old(self).spec_requests().push(request),
            final(self).spec_replies() == old(self).spec_replies(),
            final(self).spec_handler_bound() == old(self).spec_handler_bound(),
    {
        self.requests.push(request);
    }

    /// Takes the status code of the next reply; `EAGAIN` when none has come.
    pub fn receive_zap_reply(&mut self) -> (r: Result<Vec<u8>, i32>)
        ensures
            old(self).spec_replies().len() == 0 ==> r == Err::<Vec<u8>, i32>(EAGAIN) && final(self).spec_replies() == old(self).spec_replies(),
            old(self).spec_replies().len() > 0 ==> r is Ok && r->Ok_0@ == old(self).spec_replies()[0] && final(self).spec_replies() == old(self).spec_replies().drop_first(),
            final(self).spec_requests() == old(self).spec_requests(),
            final(self).spec_handler_bound() == old(self).spec_handler_bound(),
    {
        match self.replies.pop_front() {
            Some(code) => {
                assert(self.spec_replies() =~= old(self).spec_replies().drop_first());
                Ok(code)
            },
            None => {
                assert(self.spec_replies() =~= old(self).spec_replies());
                Err(EAGAIN)
            },
        }
    }
}

/// A ZAP status code is one of "200", "300", "400" and "500".
pub open spec fn valid_status_code(code: Seq<u8>) -> bool {
    &&& code.len() == 3
    &&& 50 <= code[0] <= 53
    &&& code[1] == 48
    &&& code[2] == 48
}

pub fn is_valid_status_code(code: &Vec<u8>) -> (r: bool)
    ensures
        r == valid_status_code(code@),
{
    code.len() == 3 && 50 <= code[0] && code[0] <= 53 && code[1] == 48 && code[2] == 48
}

/// The four bytes of `n`, most significant first.
pub open spec fn be32(n: u32) -> Seq<u8> {
    seq![
        ((n >> 24u32) & 0xff) as u8,
        ((n >> 16u32) & 0xff) as u8,
        ((n >> 8u32) & 0xff) as u8,
        (n & 0xff) as u8,
    ]
}

/// The number the four bytes `b[0..4]` stand for, most significant first.
pub open spec fn from_be32(b: Seq<u8>) -> nat {
    ((b[0] as nat) * 0x1000000 + (b[1] as nat) * 0x10000 + (b[2] as nat) * 0x100 + b[3] as nat)
}

pub fn put_u32_be(buf: &mut Vec<u8>, n: u32)
    ensures
        final(buf)@ == old(buf)@ + be32(n),
{
    buf.push(((n >> 24u32) & 0xff) as u8);
    buf.push(((n >> 16u32) & 0xff) as u8);
    buf.push(((n >> 8u32) & 0xff) as u8);
    buf.push((n & 0xff) as u8);
    assert(buf@ =~= old(buf)@ + be32(n));
}

/// Appends `src` to `buf`.
pub fn append_bytes(buf: &mut Vec<u8>, src: &[u8])
    ensures
        final(buf)@ == old(buf)@ + src@,
{
    let mut i: usize = 0;
    while i < src.len()
        invariant
            i <= src@.len(),
            buf@ == old(buf)@ + src@.take(i as int),
        decreases src@.len() - i,
    {
        buf.push(src[i]);
        i += 1;
        assert(src@.take(i as int) =~= src@.take(i - 1).push(src@[i - 1]));
    }
    assert(src@.take(src@.len() as int) =~= src@);
}

/// Whether `data` begins with `prefix`.
pub open spec fn has_prefix(data: Seq<u8>, prefix: Seq<u8>) -> bool {
    prefix.len() <= data.len() && data.take(prefix.len() as int) == prefix
}

pub fn starts_with(data: &[u8], prefix: &[u8]) -> (r: bool)
    ensures
        r == has_prefix(data@, prefix@),
{
    if prefix.len() > data.len() {
        return false;
    }
    let mut i: usize = 0;
    while i < prefix.len()
        invariant
            prefix@.len() <= data@.len(),
            i <= prefix@.len(),
            forall|j: int| 0 <= j < i ==> data@[j] == prefix@[j],
        decreases prefix@.len() - i,
    {
        if data[i] != prefix[i] {
            assert(data@.take(prefix@.len() as int)[i as int] != prefix@[i as int]);
            return false;
        }
        i += 1;
    }
    assert(data@.take(prefix@.len() as int) =~= prefix@);
    true
}

/// One metadata property on the wire: the name's length in a byte, the
/// name, the value's length in four bytes, the value.
pub open spec fn property_bytes(name: Seq<u8>, value: Seq<u8>) -> Seq<u8> {
    seq![name.len() as u8] + name + be32(value.len() as u32) + value
}

/// Appends one property.
pub fn add_property(buf: &mut Vec<u8>, name: &[u8], value: &[u8])
    requires
        name@.len() <= 255,
        value@.len() <= u32::MAX,
    ensures
        final(buf)@ == old(buf)@ + property_bytes(name@, value@),
{
    buf.push(name.len() as u8);
    append_bytes(buf, name);
    put_u32_be(buf, value.len() as u32);
    append_bytes(buf, value);
    assert(buf@ =~= old(buf)@ + property_bytes(name@, value@));
}

pub open spec fn socket_type_property_name() -> Seq<u8> {
    seq![83u8, 111u8, 99u8, 107u8, 101u8, 116u8, 45u8, 84u8, 121u8, 112u8, 101u8]
}

pub open spec fn identity_property_name() -> Seq<u8> {
    seq![73u8, 100u8, 101u8, 110u8, 116u8, 105u8, 116u8, 121u8]
}

/// "Socket-Type".
pub fn socket_type_name_bytes() -> (v: Vec<u8>)
    ensures
        v@ == socket_type_property_name(),
{
    let v: Vec<u8> = vec![83u8, 111u8, 99u8, 107u8, 101u8, 116u8, 45u8, 84u8, 121u8, 112u8, 101u8];
    assert(v@ =~= socket_type_property_name());
    v
}

/// "Identity".
pub fn identity_name_bytes() -> (v: Vec<u8>)
    ensures
        v@ == identity_property_name(),
{
    let v: Vec<u8> = vec![73u8, 100u8, 101u8, 110u8, 116u8, 105u8, 116u8, 121u8];
    assert(v@ =~= identity_property_name());
    v
}

/// The ASCII name of each socket type, empty for an unknown type.
pub open spec fn socket_type_name(t: i32) -> Seq<u8> {
    if t == 0 {
        seq![80u8, 65u8, 73u8, 82u8]
    } else if t == 1 {
        seq![80u8, 85u8, 66u8]
    } else if t == 2 {
        seq![83u8, 85u8, 66u8]
    } else if t == 3 {
        seq![82u8, 69u8, 81u8]
    } else if t == 4 {
        seq![82u8, 69u8, 80u8]
    } else if t == 5 {
        seq![68u8, 69u8, 65u8, 76u8, 69u8, 82u8]
    } else if t == 6 {
        seq![82u8, 79u8, 85u8, 84u8, 69u8, 82u8]
    } else if t == 7 {
        seq![80u8, 85u8, 76u8, 76u8]
    } else if t == 8 {
        seq![80u8, 85u8, 83u8, 72u8]
    } else if t == 9 {
        seq![88u8, 80u8, 85u8, 66u8]
    } else if t == 10 {
        seq![88u8, 83u8, 85u8, 66u8]
    } else if t == 11 {
        seq![83u8, 84u8, 82u8, 69u8, 65u8, 77u8]
    } else if t == 12 {
        seq![83u8, 69u8, 82u8, 86u8, 69u8, 82u8]
    } else if t == 13 {
        seq![67u8, 76u8, 73u8, 69u8, 78u8, 84u8]
    } else if t == 14 {
        seq![82u8, 65u8, 68u8, 73u8, 79u8]
    } else if t == 15 {
        seq![68u8, 73u8, 83u8, 72u8]
    } else if t == 16 {
        seq![71u8, 65u8, 84u8, 72u8, 69u8, 82u8]
    } else if t == 17 {
        seq![83u8, 67u8, 65u8, 84u8, 84u8, 69u8, 82u8]
    } else if t == 18 {
        seq![68u8, 71u8, 82u8, 65u8, 77u8]
    } else if t == 19 {
        seq![80u8, 69u8, 69u8, 82u8]
    } else if t == 20 {
        seq![67u8, 72u8, 65u8, 78u8, 78u8, 69u8, 76u8]
    } else {
        Seq::empty()
    }
}

pub fn socket_type_string(t: i32) -> (v: Vec<u8>)
    ensures
        v@ == socket_type_name(t),
{
    let v: Vec<u8> = if t == 0 {
        vec![80u8, 65u8, 73u8, 82u8]
    } else if t == 1 {
        vec![80u8, 85u8, 66u8]
    } else if t == 2 {
        vec![83u8, 85u8, 66u8]
    } else if t == 3 {
        vec![82u8, 69u8, 81u8]
    } else if t == 4 {
        vec![82u8, 69u8, 80u8]
    } else if t == 5 {
        vec![68u8, 69u8, 65u8, 76u8, 69u8, 82u8]
    } else if t == 6 {
        vec![82u8, 79u8, 85u8, 84u8, 69u8, 82u8]
    } else if t == 7 {
        vec![80u8, 85u8, 76u8, 76u8]
    } else if t == 8 {
        vec![80u8, 85u8, 83u8, 72u8]
    } else if t == 9 {
        vec![88u8, 80u8, 85u8, 66u8]
    } else if t == 10 {
        vec![88u8, 83u8, 85u8, 66u8]
    } else if t == 11 {
        vec![83u8, 84u8, 82u8, 69u8, 65u8, 77u8]
    } else if t == 12 {
        vec![83u8, 69u8, 82u8, 86u8, 69u8, 82u8]
    } else if t == 13 {
        vec![67u8, 76u8, 73u8, 69u8, 78u8, 84u8]
    } else if t == 14 {
        vec![82u8, 65u8, 68u8, 73u8, 79u8]
    } else if t == 15 {
        vec![68u8, 73u8, 83u8, 72u8]
    } else if t == 16 {
        vec![71u8, 65u8, 84u8, 72u8, 69u8, 82u8]
    } else if t == 17 {
        vec![83u8, 67u8, 65u8, 84u8, 84u8, 69u8, 82u8]
    } else if t == 18 {
        vec![68u8, 71u8, 82u8, 65u8, 77u8]
    } else if t == 19 {
        vec![80u8, 69u8, 69u8, 82u8]
    } else if t == 20 {
        vec![67u8, 72u8, 65u8, 78u8, 78u8, 69u8, 76u8]
    } else {
        Vec::new()
    };
    assert(v@ =~= socket_type_name(t));
    v
}

/// The socket types a socket of type `own` may talk to.
pub open spec fn compatible(own: i32, peer: i32) -> bool {
    if own == 3 {
        peer == 4 || peer == 6
    } else if own == 4 {
        peer == 5 || peer == 3
    } else if own == 5 {
        peer == 4 || peer == 5 || peer == 6
    } else if own == 6 {
        peer == 3 || peer == 5 || peer == 6
    } else if own == 8 {
        peer == 7
    } else if own == 7 {
        peer == 8
    } else if own == 1 || own == 9 {
        peer == 2 || peer == 10
    } else if own == 2 || own == 10 {
        peer == 1 || peer == 9
    } else if own == 0 {
        peer == 0
    } else if own == 12 {
        peer == 13
    } else if own == 13 {
        peer == 12
    } else if own == 14 {
        peer == 15
    } else if own == 15 {
        peer == 14
    } else if own == 16 {
        peer == 17
    } else if own == 17 {
        peer == 16
    } else if own == 18 || own == 19 || own == 20 {
        peer == own
    } else {
        false
    }
}

/// Whether `name` is the name of a socket type that `own` may talk to.
pub open spec fn type_name_accepted(own: i32, name: Seq<u8>) -> bool {
    exists|peer: i32| 0 <= peer <= 20 && compatible(own, peer) && socket_type_name(peer) == name
}

/// Whether the socket type named `name` may talk to a socket of type `own`.
pub fn check_socket_type(own: i32, name: &[u8]) -> (r: bool)
    ensures
        r == type_name_accepted(own, name@),
{
    let mut peer: i32 = 0;
    while peer <= 20
        invariant
            0 <= peer <= 21,
            forall|p: i32|
                0 <= p < peer ==> !(compatible(own, p) && #[trigger] socket_type_name(p)
                    == name@),
        decreases 21 - peer,
    {
        if compatible_exec(own, peer) {
            let candidate = socket_type_string(peer);
            if bytes_equal(candidate.as_slice(), name) {
                return true;
            }
        }
        peer += 1;
    }
    assert forall|p: i32| 0 <= p <= 20 && compatible(own, p) implies #[trigger] socket_type_name(p)
        != name@ by {}
    false
}

fn compatible_exec(own: i32, peer: i32) -> (r: bool)
    ensures
        r == compatible(own, peer),
{
    if own == 3 {
        peer == 4 || peer == 6
    } else if own == 4 {
        peer == 5 || peer == 3
    } else if own == 5 {
        peer == 4 || peer == 5 || peer == 6
    } else if own == 6 {
        peer == 3 || peer == 5 || peer == 6
    } else if own == 8 {
        peer == 7
    } else if own == 7 {
        peer == 8
    } else if own == 1 || own == 9 {
        peer == 2 || peer == 10
    } else if own == 2 || own == 10 {
        peer == 1 || peer == 9
    } else if own == 0 {
        peer == 0
    } else if own == 12 {
        peer == 13
    } else if own == 13 {
        peer == 12
    } else if own == 14 {
        peer == 15
    } else if own == 15 {
        peer == 14
    } else if own == 16 {
        peer == 17
    } else if own == 17 {
        peer == 16
    } else if own == 18 || own == 19 || own == 20 {
        peer == own
    } else {
        false
    }
}

pub fn bytes_equal(a: &[u8], b: &[u8]) -> (r: bool)
    ensures
        r == (a@ == b@),
{
    if a.len() != b.len() {
        return false;
    }
    let mut i: usize = 0;
    while i < a.len()
        invariant
            a@.len() == b@.len(),
            i <= a@.len(),
            forall|j: int| 0 <= j < i ==> a@[j] == b@[j],
        decreases a@.len() - i,
    {
        if a[i] != b[i] {
            return false;
        }
        i += 1;
    }
    assert(a@ =~= b@);
    true
}

/// A command: `prefix` followed by the properties every handshake
/// announces: the socket type, and for REQ, DEALER and ROUTER the routing
/// id.
pub open spec fn command_with_basic_properties(
    prefix: Seq<u8>,
    socket_type: i32,
    routing_id: Seq<u8>,
) -> Seq<u8> {
    prefix + property_bytes(socket_type_property_name(), socket_type_name(socket_type)) + if (
    socket_type == 3 || socket_type == 5 || socket_type == 6) {
        property_bytes(identity_property_name(), routing_id)
    } else {
        Seq::empty()
    }
}

pub fn make_command_with_basic_properties(
    msg: &mut Msg,
    prefix: &[u8],
    socket_type: i32,
    routing_id: &[u8],
) -> (r: Result<(), i32>)
    requires
        routing_id@.len() <= 255,
    ensures
        r is Ok,
        final(msg).body() == command_with_basic_properties(prefix@, socket_type, routing_id@),
{
    let mut data: Vec<u8> = Vec::new();
    append_bytes(&mut data, prefix);
    let name = socket_type_name_bytes();
    let value = socket_type_string(socket_type);
    add_property(&mut data, name.as_slice(), value.as_slice());
    if socket_type == 3 || socket_type == 5 || socket_type == 6 {
        let id_name = identity_name_bytes();
        add_property(&mut data, id_name.as_slice(), routing_id);
    }
    assert(data@ =~= command_with_basic_properties(prefix@, socket_type, routing_id@));
    msg.set_data(data);
    Ok(())
}

/// The properties in `data` from `pos` on, or `None` where they are
/// malformed: a property cut short, leftover bytes, or a socket type that
/// `own` may not talk to.  A name length with nothing after it ends the
/// list.
pub open spec fn parse_properties(data: Seq<u8>, pos: int, own: i32) -> Option<
    Seq<(Seq<u8>, Seq<u8>)>,
>
    decreases data.len() - pos,
{
    if pos < 0 || pos > data.len() {
        None
    } else if data.len() - pos <= 1 {
        if data.len() - pos == 0 {
            Some(Seq::empty())
        } else {
            None
        }
    } else {
        let name_len = data[pos] as int;
        let name_end = pos + 1 + name_len;
        if name_end + 4 > data.len() {
            None
        } else {
            let name = data.subrange(pos + 1, name_end);
            let value_len = from_be32(data.subrange(name_end, name_end + 4)) as int;
            let value_end = name_end + 4 + value_len;
            if value_end > data.len() {
                None
            } else {
                let value = data.subrange(name_end + 4, value_end);
                if name == socket_type_property_name() && !type_name_accepted(own, value) {
                    None
                } else {
                    match parse_properties(data, value_end, own) {
                        Some(rest) => Some(seq![(name, value)] + rest),
                        None => None,
                    }
                }
            }
        }
    }
}

/// Reads the properties of a READY or INITIATE command body.  Refused with
/// `EINVAL` where the peer's socket type may not talk to `own`, with
/// `EPROTO` where the bytes do not form properties.
pub fn parse_metadata(data: &[u8], own: i32) -> (r: Result<Vec<(Vec<u8>, Vec<u8>)>, i32>)
    ensures
        match r {
            Ok(props) => parse_properties(data@, 0, own) == Some(
                props@.map_values(|p: (Vec<u8>, Vec<u8>)| (p.0@, p.1@)),
            ),
            Err(e) => parse_properties(data@, 0, own) is None && (e == EPROTO || e == EINVAL),
        },
{
    let mut props: Vec<(Vec<u8>, Vec<u8>)> = Vec::new();
    let mut pos: usize = 0;
    let ghost whole = parse_properties(data@, 0, own);
    while data.len() - pos > 1
        invariant
            pos <= data@.len(),
            whole == parse_properties(data@, 0, own),
            whole == match parse_properties(data@, pos as int, own) {
                Some(rest) => Some(
                    props@.map_values(|p: (Vec<u8>, Vec<u8>)| (p.0@, p.1@)) + rest,
                ),
                None => None::<Seq<(Seq<u8>, Seq<u8>)>>,
            },
        decreases data@.len() - pos,
    {
        let name_len = data[pos] as usize;
        let name_start = pos + 1;
        if data.len() - name_start < name_len || data.len() - name_start - name_len < 4 {
            return Err(EPROTO);
        }
        let name_end = name_start + name_len;
        let b0 = data[name_end] as u32;
        let b1 = data[name_end + 1] as u32;
        let b2 = data[name_end + 2] as u32;
        let b3 = data[name_end + 3] as u32;
        let value_len_u32: u32 = (b0 * 0x1000000 + b1 * 0x10000 + b2 * 0x100 + b3) as u32;
        assert(value_len_u32 as nat == from_be32(data@.subrange(name_end as int, name_end + 4)));
        let value_start = name_end + 4;
        if ((data.len() - value_start) as u64) < (value_len_u32 as u64) {
            return Err(EPROTO);
        }
        let value_end = value_start + value_len_u32 as usize;
        let name = vstd::slice::slice_to_vec(vstd::slice::slice_subrange(data, name_start, name_end));
        let value = vstd::slice::slice_to_vec(
            vstd::slice::slice_subrange(data, value_start, value_end),
        );
        let st = socket_type_name_bytes();
        if bytes_equal(name.as_slice(), st.as_slice()) && !check_socket_type(own, value.as_slice()) {
            return Err(EINVAL);
        }
        let ghost before = props@.map_values(|p: (Vec<u8>, Vec<u8>)| (p.0@, p.1@));
        props.push((name, value));
        proof {
            let after = props@.map_values(|p: (Vec<u8>, Vec<u8>)| (p.0@, p.1@));
            assert(after =~= before.push((name@, value@)));
            match parse_properties(data@, value_end as int, own) {
                Some(rest) => {
                    assert(before + (seq![(name@, value@)] + rest) =~= after + rest);
                },
                None => {},
            }
        }
        pos = value_end;
    }
    if data.len() - pos == 1 {
        return Err(EPROTO);
    }
    proof {
        let after = props@.map_values(|p: (Vec<u8>, Vec<u8>)| (p.0@, p.1@));
        assert(after + Seq::<(Seq<u8>, Seq<u8>)>::empty() =~= after);
    }
    Ok(props)
}

/// Parsing the properties of `data` from `k` is parsing those of
/// `data[k..]` from the start.
pub proof fn lemma_parse_shift(data: Seq<u8>, k: int, own: i32)
    requires
        0 <= k <= data.len(),
    ensures
        parse_properties(data, k, own) == parse_properties(data.subrange(k, data.len() as int), 0, own),
{
    lemma_parse_shift_at(data, k, 0, own);
}

proof fn lemma_parse_shift_at(data: Seq<u8>, k: int, i: int, own: i32)
    requires
        0 <= k <= data.len(),
        0 <= i <= data.len() - k,
    ensures
        parse_properties(data, k + i, own) == parse_properties(
            data.subrange(k, data.len() as int),
            i,
            own,
        ),
    decreases data.len() - k - i,
{
    let tail = data.subrange(k, data.len() as int);
    let p = k + i;
    if data.len() - p > 1 {
        let name_len = data[p] as int;
        let name_end = p + 1 + name_len;
        assert(tail[i] == data[p]);
        if name_end + 4 <= data.len() {
            assert(data.subrange(p + 1, name_end) =~= tail.subrange(i + 1, i + 1 + name_len));
            assert(data.subrange(name_end, name_end + 4) =~= tail.subrange(
                i + 1 + name_len,
                i + 1 + name_len + 4,
            ));
            let value_len = from_be32(data.subrange(name_end, name_end + 4)) as int;
            let value_end = name_end + 4 + value_len;
            if value_end <= data.len() {
                assert(data.subrange(name_end + 4, value_end) =~= tail.subrange(
                    i + 1 + name_len + 4,
                    value_end - k,
                ));
                lemma_parse_shift_at(data, k, value_end - k, own);
            }
        }
    }
}

/// Reading back the four bytes of `n` gives `n`.
pub proof fn lemma_be32_round_trip(n: u32)
    ensures
        from_be32(be32(n)) == n,
{
    let b0 = (n >> 24u32) & 0xff;
    let b1 = (n >> 16u32) & 0xff;
    let b2 = (n >> 8u32) & 0xff;
    let b3 = n & 0xff;
    assert(b0 * 0x1000000 + b1 * 0x10000 + b2 * 0x100 + b3 == n) by (bit_vector)
        requires
            b0 == (n >> 24u32) & 0xff,
            b1 == (n >> 16u32) & 0xff,
            b2 == (n >> 8u32) & 0xff,
            b3 == n & 0xff,
    ;
    assert(b0 < 256 && b1 < 256 && b2 < 256 && b3 < 256) by (bit_vector)
        requires
            b0 == (n >> 24u32) & 0xff,
            b1 == (n >> 16u32) & 0xff,
            b2 == (n >> 8u32) & 0xff,
            b3 == n & 0xff,
    ;
    assert(be32(n)[0] as nat == b0 as nat);
    assert(be32(n)[1] as nat == b1 as nat);
    assert(be32(n)[2] as nat == b2 as nat);
    assert(be32(n)[3] as nat == b3 as nat);
}

/// One property followed by `rest` parses as that property followed by what
/// `rest` parses as, unless it announces a socket type `own` refuses.
proof fn lemma_parse_property(name: Seq<u8>, value: Seq<u8>, rest: Seq<u8>, own: i32)
    requires
        name.len() <= 255,
        value.len() <= u32::MAX,
        name == socket_type_property_name() ==> type_name_accepted(own, value),
    ensures
        parse_properties(property_bytes(name, value) + rest, 0, own) == match parse_properties(
            rest,
            0,
            own,
        ) {
            Some(tail) => Some(seq![(name, value)] + tail),
            None => None::<Seq<(Seq<u8>, Seq<u8>)>>,
        },
{
    let data = property_bytes(name, value) + rest;
    let n = name.len() as int;
    let v = value.len() as int;
    lemma_be32_round_trip(value.len() as u32);
    assert(data[0] == name.len() as u8);
    assert(data.subrange(1, 1 + n) =~= name);
    assert(data.subrange(1 + n, 5 + n) =~= be32(value.len() as u32));
    assert(data.subrange(5 + n, 5 + n + v) =~= value);
    assert(data.subrange(5 + n + v, data.len() as int) =~= rest);
    lemma_parse_shift(data, 5 + n + v, own);
}

/// The socket types a socket may talk to are the ones that may talk to it.
pub proof fn law_compatible_symmetric(a: i32, b: i32)
    ensures
        compatible(a, b) == compatible(b, a),
{
}

/// A command with the basic properties of a socket of type `socket_type`
/// is accepted by any socket of a type it may talk to, which reads back the
/// socket type and, for REQ, DEALER and ROUTER, the routing id.
pub proof fn law_basic_properties_accepted(
    prefix: Seq<u8>,
    socket_type: i32,
    routing_id: Seq<u8>,
    own: i32,
)
    requires
        0 <= socket_type <= 20,
        compatible(own, socket_type),
        routing_id.len() <= 255,
    ensures
        parse_properties(
            command_with_basic_properties(prefix, socket_type, routing_id),
            prefix.len() as int,
            own,
        ) == Some(
            seq![(socket_type_property_name(), socket_type_name(socket_type))] + if (socket_type == 3
                || socket_type == 5 || socket_type == 6) {
                seq![(identity_property_name(), routing_id)]
            } else {
                Seq::empty()
            },
        ),
{
    let cmd = command_with_basic_properties(prefix, socket_type, routing_id);
    let st = property_bytes(socket_type_property_name(), socket_type_name(socket_type));
    let id = if (socket_type == 3 || socket_type == 5 || socket_type == 6) {
        property_bytes(identity_property_name(), routing_id)
    } else {
        Seq::empty()
    };
    lemma_parse_shift(cmd, prefix.len() as int, own);
    assert(cmd.subrange(prefix.len() as int, cmd.len() as int) =~= st + id);
    assert(type_name_accepted(own, socket_type_name(socket_type)));
    assert(socket_type_name(socket_type).len() <= 7);
    lemma_parse_property(socket_type_property_name(), socket_type_name(socket_type), id, own);
    if socket_type == 3 || socket_type == 5 || socket_type == 6 {
        assert(identity_property_name() != socket_type_property_name()) by {
            assert(identity_property_name().len() != socket_type_property_name().len());
        }
        lemma_parse_property(identity_property_name(), routing_id, Seq::empty(), own);
        assert(property_bytes(identity_property_name(), routing_id) + Seq::<u8>::empty()
            =~= property_bytes(identity_property_name(), routing_id));
        assert(seq![(identity_property_name(), routing_id)] + Seq::<(Seq<u8>, Seq<u8>)>::empty()
            =~= seq![(identity_property_name(), routing_id)]);
    } else {
        assert(seq![(socket_type_property_name(), socket_type_name(socket_type))] + Seq::<
            (Seq<u8>, Seq<u8>),
        >::empty() =~= seq![(socket_type_property_name(), socket_type_name(socket_type))]);
    }
}

} // verus!
