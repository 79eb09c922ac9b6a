use crate::text::chars_of;
use vstd::prelude::*;

verus! {

/// The options every socket has.
pub struct SocketOptions {
    pub socket_id: i32,
    pub type_: i32,
    pub immediate: i32,
    pub rcvmore: bool,
    pub sndhwm: i32,
    pub rcvhwm: i32,
}

impl Default for SocketOptions {
    fn default() -> (o: Self)
        ensures
            o.socket_id == 0,
            o.type_ == 0,
            o.immediate == 0,
            !o.rcvmore,
            o.sndhwm == 0,
            o.rcvhwm == 0,
    {
        SocketOptions { socket_id: 0, type_: 0, immediate: 0, rcvmore: false, sndhwm: 0, rcvhwm: 0 }
    }
}

/// Invalid argument.
pub const EINVAL: i32 = 22;

/// The protocol is not supported.
pub const EPROTONOSUPPORT: i32 = 93;

/// The context was terminated.
pub const ETERM: i32 = 156384765;

/// The socket types a socket can be created as.
pub const ZMQ_PAIR: i32 = 0;
pub const ZMQ_PUB: i32 = 1;
pub const ZMQ_SUB: i32 = 2;

/// The tag a live socket carries.
pub const SOCKET_TAG: u32 = 0xbaddecaf;

/// Whether "://" starts at `i` in `s`.
pub open spec fn separator_at(s: Seq<char>, i: int) -> bool {
    0 <= i && i + 3 <= s.len() && s[i] == ':' && s[i + 1] == '/' && s[i + 2] == '/'
}

/// Where the first "://" at or after `i` starts; `s.len()` where there is none.
pub open spec fn find_separator(s: Seq<char>, i: int) -> int
    decreases s.len() - i,
{
    if i < 0 || i + 3 > s.len() {
        s.len() as int
    } else if separator_at(s, i) {
        i
    } else {
        find_separator(s, i + 1)
    }
}

/// The protocol and the address `uri` names as `protocol://address`, split
/// at its first "://"; both must be there.
pub open spec fn uri_parts(uri: Seq<char>) -> Option<(Seq<char>, Seq<char>)> {
    let i = find_separator(uri, 0);
    if i + 3 <= uri.len() && i > 0 && i + 3 < uri.len() {
        Some((uri.subrange(0, i), uri.subrange(i + 3, uri.len() as int)))
    } else {
        None
    }
}

/// The protocols a socket knows of.
pub open spec fn known_protocol(p: Seq<char>) -> bool {
    ||| p == seq!['i', 'n', 'p', 'r', 'o', 'c']
    ||| p == seq!['t', 'c', 'p']
    ||| p == seq!['i', 'p', 'c']
    ||| p == seq!['p', 'g', 'm']
    ||| p == seq!['e', 'p', 'g', 'm']
    ||| p == seq!['w', 's']
    ||| p == seq!['w', 's', 's']
}

proof fn lemma_find_separator(s: Seq<char>, i: int, j: int)
    requires
        0 <= i <= j,
        j + 3 > s.len() || separator_at(s, j),
        forall|k: int| i <= k < j ==> !separator_at(s, k),
    ensures
        find_separator(s, i) == (if j + 3 > s.len() { s.len() as int } else { j }),
    decreases j - i,
{
    if i < j {
        lemma_find_separator(s, i + 1, j);
    }
}

proof fn lemma_separator_found(s: Seq<char>, i: int)
    ensures
        find_separator(s, i) == s.len() || separator_at(s, find_separator(s, i)),
    decreases s.len() - i,
{
    if !(i < 0 || i + 3 > s.len()) && !separator_at(s, i) {
        lemma_separator_found(s, i + 1);
    }
}

/// A URI that splits into a protocol and an address is those two joined by
/// "://".
pub proof fn law_uri_parts_rejoin(uri: Seq<char>)
    requires
        uri_parts(uri) is Some,
    ensures
        uri_parts(uri).unwrap().0 + seq![':', '/', '/'] + uri_parts(uri).unwrap().1 == uri,
{
    lemma_separator_found(uri, 0);
    let i = find_separator(uri, 0);
    assert(uri.subrange(0, i) + seq![':', '/', '/'] + uri.subrange(i + 3, uri.len() as int) =~= uri);
}

fn same_chars(a: &[char], b: &[char]) -> (r: bool)
    ensures
        r == (a@ == b@),
{
    if a.len() != b.len() {
        return false;
    }
    let mut i: usize = 0;
    while i < a.len()
        invariant
            a@.len() == b@.len(),
            i <= a@.len(),
            forall|k: int| 0 <= k < i ==> a@[k] == b@[k],
        decreases a@.len() - i,
    {
        if a[i] != b[i] {
            return false;
        }
        i = i + 1;
    }
    assert(a@ =~= b@);
    true
}

/// Splits `uri` into its protocol and its address: `EINVAL` where it has
/// no "://" or either part is empty.
pub fn parse_uri(uri: &str) -> (r: Result<(String, String), i32>)
    ensures
        match uri_parts(uri@) {
            Some((p, a)) => r matches Ok((rp, ra)) && rp@ == p && ra@ == a,
            None => r == Err::<(String, String), i32>(EINVAL),
        },
{
    let s = chars_of(uri);
    let n = s.len();
    let mut i: usize = 0;
    while n - i >= 3 && !(s[i] == ':' && s[i + 1] == '/' && s[i + 2] == '/')
        invariant
            n == s@.len(),
            s@ == uri@,
            i <= n,
            forall|k: int| 0 <= k < i ==> !separator_at(s@, k),
        decreases n - i,
    {
        i = i + 1;
    }
    proof {
        lemma_find_separator(s@, 0, i as int);
    }
    if n - i <= 3 || i == 0 {
        return Err(EINVAL);
    }
    let protocol = uri.substring_char(0, i).to_owned();
    let address = uri.substring_char(i + 3, n).to_owned();
    Ok((protocol, address))
}

/// Accepts the protocols a socket knows of; `EPROTONOSUPPORT` for others.
pub fn check_protocol(protocol: &str) -> (r: Result<(), i32>)
    ensures
        r == (if known_protocol(protocol@) {
            Ok::<(), i32>(())
        } else {
            Err::<(), i32>(EPROTONOSUPPORT)
        }),
{
    let p = chars_of(protocol);
    let known = same_chars(p.as_slice(), vec!['i', 'n', 'p', 'r', 'o', 'c'].as_slice())
        || same_chars(p.as_slice(), vec!['t', 'c', 'p'].as_slice())
        || same_chars(p.as_slice(), vec!['i', 'p', 'c'].as_slice())
        || same_chars(p.as_slice(), vec!['p', 'g', 'm'].as_slice())
        || same_chars(p.as_slice(), vec!['e', 'p', 'g', 'm'].as_slice())
        || same_chars(p.as_slice(), vec!['w', 's'].as_slice())
        || same_chars(p.as_slice(), vec!['w', 's', 's'].as_slice());
    if known {
        Ok(())
    } else {
        Err(EPROTONOSUPPORT)
    }
}

/// The transports a socket binds and connects over.
#[derive(PartialEq, Eq, Debug, Clone, Copy, Structural)]
pub enum Transport {
    Inproc,
    Tcp,
}

/// The kinds of socket `create` makes.
#[derive(PartialEq, Eq, Debug, Clone, Copy, Structural)]
pub enum SocketKind {
    Pair,
    Pub,
    Sub,
}

/// What a bind or connect to `endpoint` does, for a socket whose context is
/// `terminated` or not: `ETERM` once the context is gone; else the parts of
/// the URI (`EINVAL` without them), a known protocol (`EPROTONOSUPPORT`
/// otherwise), and of those the transports that are carried out here.
pub open spec fn endpoint_outcome(terminated: bool, endpoint: Seq<char>) -> Result<(Transport, Seq<char>), i32> {
    if terminated {
        Err(ETERM)
    } else {
        match uri_parts(endpoint) {
            None => Err(EINVAL),
            Some((p, a)) => if !known_protocol(p) {
                Err(EPROTONOSUPPORT)
            } else if p == seq!['i', 'n', 'p', 'r', 'o', 'c'] {
                Ok((Transport::Inproc, a))
            } else if p == seq!['t', 'c', 'p'] {
                Ok((Transport::Tcp, a))
            } else {
                Err(EPROTONOSUPPORT)
            },
        }
    }
}

/// What a socket of any type has: its options, whether it is shared
/// between threads, its tag, and whether its context was terminated.
pub struct SocketBase {
    options: SocketOptions,
    thread_safe: bool,
    tag: u32,
    ctx_terminated: bool,
    destroyed: bool,
    disconnected: bool,
}

impl SocketBase {
    pub closed spec fn spec_options(&self) -> SocketOptions {
        self.options
    }

    pub closed spec fn spec_thread_safe(&self) -> bool {
        self.thread_safe
    }

    pub closed spec fn spec_tag(&self) -> u32 {
        self.tag
    }

    pub closed spec fn spec_ctx_terminated(&self) -> bool {
        self.ctx_terminated
    }

    /// A socket of thread `tid` with id `sid`.
    pub fn new(_tid: u32, sid: i32, thread_safe: bool) -> (s: Self)
        ensures
            s.spec_options().socket_id == sid,
            s.spec_options().type_ == 0 && s.spec_options().immediate == 0 && !s.spec_options().rcvmore,
            s.spec_options().sndhwm == 0 && s.spec_options().rcvhwm == 0,
            s.spec_thread_safe() == thread_safe,
            s.spec_tag() == SOCKET_TAG,
            !s.spec_ctx_terminated(),
    {
        let mut options = SocketOptions::default();
        options.socket_id = sid;
        SocketBase {
            options,
            thread_safe,
            tag: SOCKET_TAG,
            ctx_terminated: false,
            destroyed: false,
            disconnected: false,
        }
    }

    /// A socket of `socket_type`: PAIR, PUB and SUB are made; `None` (an
    /// invalid type) for others.
    pub fn create(socket_type: i32) -> (r: Option<SocketKind>)
        ensures
            r == (if socket_type == ZMQ_PAIR {
                Some(SocketKind::Pair)
            } else if socket_type == ZMQ_PUB {
                Some(SocketKind::Pub)
            } else if socket_type == ZMQ_SUB {
                Some(SocketKind::Sub)
            } else {
                None::<SocketKind>
            }),
    {
        if socket_type == ZMQ_PAIR {
            Some(SocketKind::Pair)
        } else if socket_type == ZMQ_PUB {
            Some(SocketKind::Pub)
        } else if socket_type == ZMQ_SUB {
            Some(SocketKind::Sub)
        } else {
            None
        }
    }

    /// Whether the socket is still alive.
    pub fn check_tag(&self) -> (r: bool)
        ensures
            r == (self.spec_tag() == SOCKET_TAG),
    {
        self.tag == SOCKET_TAG
    }

    pub fn is_thread_safe(&self) -> (r: bool)
        ensures
            r == self.spec_thread_safe(),
    {
        self.thread_safe
    }

    /// The context is gone: binds and connects fail from now on.
    pub fn set_ctx_terminated(&mut self)
        ensures
            final(self).spec_ctx_terminated(),
            final(self).spec_options() == old(self).spec_options(),
            final(self).spec_thread_safe() == old(self).spec_thread_safe(),
            final(self).spec_tag() == old(self).spec_tag(),
    {
        self.ctx_terminated = true;
    }

    fn endpoint_target(&self, endpoint: &str) -> (r: Result<(Transport, String), i32>)
        ensures
            match endpoint_outcome(self.spec_ctx_terminated(), endpoint@) {
                Ok((t, a)) => r matches Ok((rt, ra)) && rt == t && ra@ == a,
                Err(e) => r == Err::<(Transport, String), i32>(e),
            },
    {
        if self.ctx_terminated {
            return Err(ETERM);
        }
        let (protocol, address) = match parse_uri(endpoint) {
            Ok(parts) => parts,
            Err(e) => {
                return Err(e);
            },
        };
        match check_protocol(protocol.as_str()) {
            Ok(()) => {},
            Err(e) => {
                return Err(e);
            },
        }
        let p = chars_of(protocol.as_str());
        if same_chars(p.as_slice(), vec!['i', 'n', 'p', 'r', 'o', 'c'].as_slice()) {
            Ok((Transport::Inproc, address))
        } else if same_chars(p.as_slice(), vec!['t', 'c', 'p'].as_slice()) {
            Ok((Transport::Tcp, address))
        } else {
            Err(EPROTONOSUPPORT)
        }
    }

    /// Where to bind for `endpoint`: the transport and the address, which
    /// the caller binds; the errors of `endpoint_outcome`.
    pub fn bind(&mut self, endpoint: &str) -> (r: Result<(Transport, String), i32>)
        ensures
            match endpoint_outcome(old(self).spec_ctx_terminated(), endpoint@) {
                Ok((t, a)) => r matches Ok((rt, ra)) && rt == t && ra@ == a,
                Err(e) => r == Err::<(Transport, String), i32>(e),
            },
            *final(self) == *old(self),
    {
        self.endpoint_target(endpoint)
    }

    /// Where to connect for `endpoint`: the transport and the address, which
    /// the caller connects to; the errors of `endpoint_outcome`.
    pub fn connect(&mut self, endpoint: &str) -> (r: Result<(Transport, String), i32>)
        ensures
            match endpoint_outcome(old(self).spec_ctx_terminated(), endpoint@) {
                Ok((t, a)) => r matches Ok((rt, ra)) && rt == t && ra@ == a,
                Err(e) => r == Err::<(Transport, String), i32>(e),
            },
            *final(self) == *old(self),
    {
        self.endpoint_target(endpoint)
    }
}

} // verus!
