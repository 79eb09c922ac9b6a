use crate::text::{
    chars_of, decimal, find_char_from, find_from, lemma_find_from, parse_u32, parse_u32_chars,
    push_decimal, sub_chars, trim, trim_chars,
};
use vstd::prelude::*;

verus! {

/// The TIPC address family.
pub const AF_TIPC: u16 = 30;
/// A name sequence: a service type and a range of instances.
pub const TIPC_ADDR_NAMESEQ: u32 = 1;
/// A port identity: a node and a reference.
pub const TIPC_ADDR_ID: u32 = 3;
/// Names published across the whole zone.
pub const TIPC_ZONE_SCOPE: u32 = 1;
/// Service types below this one are kept for TIPC itself.
pub const TIPC_RESERVED_TYPES: u32 = 64;
/// The size in bytes of the C layout of a TIPC socket address.
pub const SOCKADDR_TIPC_LEN: usize = 28;

/// Why an address could not be read or written.
#[derive(Debug, PartialEq, Eq, Clone, Copy, Structural)]
pub enum AddressError {
    /// The text is no TIPC address.
    InvalidInput,
    /// The address holds nothing that can be written out.
    InvalidData,
}

/// A TIPC socket address. The address union is held as its four words: a
/// name sequence is `typ`, `lower`, `upper`; a name adds its `domain`; a port
/// identity reads `typ` as the node and `lower` as the reference.
#[allow(non_camel_case_types)]
#[derive(Debug, Clone, Copy, PartialEq, Eq, Structural)]
pub struct sockaddr_tipc {
    pub family: u16,
    pub addrtype: u32,
    pub scope: u32,
    pub typ: u32,
    pub lower: u32,
    pub upper: u32,
    pub domain: u32,
}

impl sockaddr_tipc {
    /// The all-zero address.
    pub fn zeroed() -> (a: Self)
        ensures
            a == Self::zero(),
    {
        sockaddr_tipc { family: 0, addrtype: 0, scope: 0, typ: 0, lower: 0, upper: 0, domain: 0 }
    }

    pub open spec fn zero() -> Self {
        sockaddr_tipc { family: 0, addrtype: 0, scope: 0, typ: 0, lower: 0, upper: 0, domain: 0 }
    }
}

pub open spec fn three_fields(s: Seq<char>) -> Option<(Seq<char>, Seq<char>, Seq<char>)> {
    let p = find_from(s, ',', 0);
    let q = find_from(s, ',', p + 1);
    let r = find_from(s, ',', q + 1);
    if p < s.len() && q < s.len() && r == s.len() {
        Some((s.subrange(0, p), s.subrange(p + 1, q), s.subrange(q + 1, s.len() as int)))
    } else {
        None
    }
}

// ---------------------------------------------------------------------------
// Node addresses.
// ---------------------------------------------------------------------------

/// The node address of zone `z`, cluster `c`, node `n`.
pub open spec fn tipc_addr_spec(z: u32, c: u32, n: u32) -> u32 {
    ((z & 0xFF) << 24) | ((c & 0xFF) << 16) | (n & 0xFFFF)
}

pub open spec fn tipc_zone_spec(addr: u32) -> u32 {
    (addr >> 24) & 0xFF
}

pub open spec fn tipc_cluster_spec(addr: u32) -> u32 {
    (addr >> 16) & 0xFF
}

pub open spec fn tipc_node_spec(addr: u32) -> u32 {
    addr & 0xFFFF
}

pub fn tipc_addr(z: u32, c: u32, n: u32) -> (a: u32)
    ensures
        a == tipc_addr_spec(z, c, n),
{
    ((z & 0xFF) << 24) | ((c & 0xFF) << 16) | (n & 0xFFFF)
}

pub fn tipc_zone(addr: u32) -> (z: u32)
    ensures
        z == tipc_zone_spec(addr),
{
    (addr >> 24) & 0xFF
}

pub fn tipc_cluster(addr: u32) -> (c: u32)
    ensures
        c == tipc_cluster_spec(addr),
{
    (addr >> 16) & 0xFF
}

pub fn tipc_node(addr: u32) -> (n: u32)
    ensures
        n == tipc_node_spec(addr),
{
    addr & 0xFFFF
}

/// A node address gives back the zone, cluster and node it was made of, each
/// cut to its field's width.
pub proof fn law_node_address_round_trip(z: u32, c: u32, n: u32)
    ensures
        tipc_zone_spec(tipc_addr_spec(z, c, n)) == z & 0xFF,
        tipc_cluster_spec(tipc_addr_spec(z, c, n)) == c & 0xFF,
        tipc_node_spec(tipc_addr_spec(z, c, n)) == n & 0xFFFF,
{
    assert((((((z & 0xFF) << 24) | ((c & 0xFF) << 16) | (n & 0xFFFF)) >> 24) & 0xFF) == z & 0xFF)
        by (bit_vector);
    assert((((((z & 0xFF) << 24) | ((c & 0xFF) << 16) | (n & 0xFFFF)) >> 16) & 0xFF) == c & 0xFF)
        by (bit_vector);
    assert(((((z & 0xFF) << 24) | ((c & 0xFF) << 16) | (n & 0xFFFF)) & 0xFFFF) == n & 0xFFFF)
        by (bit_vector);
}

// ---------------------------------------------------------------------------
// The address.
// ---------------------------------------------------------------------------

/// A TIPC address: a service name sequence or a port identity, possibly one
/// the system is to choose ("random").
#[derive(Debug, Clone, Copy, PartialEq, Eq, Structural)]
pub struct TipcAddress {
    pub random: bool,
    pub address: sockaddr_tipc,
}

/// `<*>`: a port identity the system chooses.
pub open spec fn is_random_name(s: Seq<char>) -> bool {
    s == seq!['<', '*', '>']
}

/// The service type, lower and upper instance that `{type,lower,upper}`
/// names: the braces, three comma-separated unsigned numbers (whitespace
/// around each allowed), a type outside the reserved ones and a range that
/// is not empty.
pub open spec fn service_name(s: Seq<char>) -> Option<(u32, u32, u32)> {
    if s.len() >= 2 && s[0] == '{' && s.last() == '}' {
        match three_fields(s.subrange(1, s.len() - 1)) {
            Some((a, b, c)) => match (parse_u32(trim(a)), parse_u32(trim(b)), parse_u32(trim(c))) {
                (Some(t), Some(l), Some(u)) => if t >= TIPC_RESERVED_TYPES && l <= u {
                    Some((t, l, u))
                } else {
                    None
                },
                _ => None,
            },
            None => None,
        }
    } else {
        None
    }
}

/// The address that resolving `name` makes of `a`, or `None` where `name`
/// is no TIPC address.
pub open spec fn resolved(a: TipcAddress, name: Seq<char>) -> Option<TipcAddress> {
    if is_random_name(name) {
        Some(
            TipcAddress {
                random: true,
                address: sockaddr_tipc {
                    family: AF_TIPC,
                    addrtype: TIPC_ADDR_ID,
                    scope: 0,
                    typ: 0,
                    lower: 0,
                    upper: a.address.upper,
                    domain: a.address.domain,
                },
            },
        )
    } else {
        match service_name(name) {
            Some((t, l, u)) => Some(
                TipcAddress {
                    random: a.random,
                    address: sockaddr_tipc {
                        family: AF_TIPC,
                        addrtype: TIPC_ADDR_NAMESEQ,
                        scope: TIPC_ZONE_SCOPE,
                        typ: t,
                        lower: l,
                        upper: u,
                        domain: a.address.domain,
                    },
                },
            ),
            None => None,
        }
    }
}

/// `tipc://{type=T, lower=L, upper=U}`.
pub open spec fn name_seq_text(t: u32, l: u32, u: u32) -> Seq<char> {
    "tipc://{type="@ + decimal(t as nat) + ", lower="@ + decimal(l as nat) + ", upper="@ + decimal(
        u as nat,
    ) + "}"@
}

/// `tipc://<zone:cluster:node:ref>`.
pub open spec fn port_id_text(node: u32, r: u32) -> Seq<char> {
    "tipc://<"@ + decimal(tipc_zone_spec(node) as nat) + ":"@ + decimal(
        tipc_cluster_spec(node) as nat,
    ) + ":"@ + decimal(tipc_node_spec(node) as nat) + ":"@ + decimal(r as nat) + ">"@
}

/// What `to_string` writes of `a`.
pub open spec fn address_text(a: TipcAddress) -> Option<Seq<char>> {
    if a.address.family != AF_TIPC {
        None
    } else if a.address.addrtype == TIPC_ADDR_NAMESEQ {
        Some(name_seq_text(a.address.typ, a.address.lower, a.address.upper))
    } else if a.address.addrtype == TIPC_ADDR_ID || a.random {
        Some(port_id_text(a.address.typ, a.address.lower))
    } else {
        None
    }
}

impl TipcAddress {
    /// An address that is not random, with every field zero.
    pub fn new() -> (a: Self)
        ensures
            !a.random,
            a.address == sockaddr_tipc::zero(),
    {
        TipcAddress { random: false, address: sockaddr_tipc::zeroed() }
    }

    /// The address `sa` holds where it is of the TIPC family, else a new one.
    pub fn from_sockaddr(sa: &sockaddr_tipc) -> (a: Self)
        ensures
            !a.random,
            a.address == (if sa.family == AF_TIPC { *sa } else { sockaddr_tipc::zero() }),
    {
        let mut addr = Self::new();
        if sa.family == AF_TIPC {
            addr.address = *sa;
        }
        addr
    }

    pub fn set_random(&mut self)
        ensures
            final(self).random,
            final(self).address == old(self).address,
    {
        self.random = true;
    }

    pub fn is_random(&self) -> (b: bool)
        ensures
            b == self.random,
    {
        self.random
    }

    /// Whether the address names a service rather than a port identity.
    pub fn is_service(&self) -> (b: bool)
        ensures
            b == (self.address.addrtype != TIPC_ADDR_ID),
    {
        self.address.addrtype != TIPC_ADDR_ID
    }

    /// Reads `<*>` or `{type,lower,upper}` into the address; on an error
    /// the address is left as it was.
    pub fn resolve(&mut self, name: &str) -> (r: Result<(), AddressError>)
        ensures
            match resolved(*old(self), name@) {
                Some(a) => r is Ok && *final(self) == a,
                None => r == Err::<(), AddressError>(AddressError::InvalidInput) && *final(self)
                    == *old(self),
            },
    {
        let c = chars_of(name);
        let n = c.len();
        if n == 3 && c[0] == '<' && c[1] == '*' && c[2] == '>' {
            assert(c@ =~= seq!['<', '*', '>']);
            self.set_random();
            self.address.family = AF_TIPC;
            self.address.addrtype = TIPC_ADDR_ID;
            self.address.typ = 0;
            self.address.lower = 0;
            self.address.scope = 0;
            return Ok(());
        }
        assert(!is_random_name(name@)) by {
            if is_random_name(name@) {
                assert(c@[0] == '<' && c@[1] == '*' && c@[2] == '>');
            }
        }
        match parse_service_name(c.as_slice()) {
            Some((t, l, u)) => {
                self.address.family = AF_TIPC;
                self.address.addrtype = TIPC_ADDR_NAMESEQ;
                self.address.typ = t;
                self.address.lower = l;
                self.address.upper = u;
                self.address.scope = TIPC_ZONE_SCOPE;
                Ok(())
            },
            None => Err(AddressError::InvalidInput),
        }
    }

    /// The address as text: a name sequence as
    /// `tipc://{type=T, lower=L, upper=U}`, a port identity (or a random
    /// address) as `tipc://<zone:cluster:node:ref>`.
    pub fn to_string(&self) -> (r: Result<String, AddressError>)
        ensures
            match address_text(*self) {
                Some(t) => r is Ok && r->Ok_0@ == t,
                None => r == Err::<String, AddressError>(AddressError::InvalidData),
            },
    {
        if self.address.family != AF_TIPC {
            return Err(AddressError::InvalidData);
        }
        let mut s = String::new();
        if self.address.addrtype == TIPC_ADDR_NAMESEQ {
            s.append("tipc://{type=");
            push_decimal(&mut s, self.address.typ);
            s.append(", lower=");
            push_decimal(&mut s, self.address.lower);
            s.append(", upper=");
            push_decimal(&mut s, self.address.upper);
            s.append("}");
            assert(s@ =~= name_seq_text(self.address.typ, self.address.lower, self.address.upper));
            Ok(s)
        } else if self.address.addrtype == TIPC_ADDR_ID || self.is_random() {
            s.append("tipc://<");
            push_decimal(&mut s, tipc_zone(self.address.typ));
            s.append(":");
            push_decimal(&mut s, tipc_cluster(self.address.typ));
            s.append(":");
            push_decimal(&mut s, tipc_node(self.address.typ));
            s.append(":");
            push_decimal(&mut s, self.address.lower);
            s.append(">");
            assert(s@ =~= port_id_text(self.address.typ, self.address.lower));
            Ok(s)
        } else {
            Err(AddressError::InvalidData)
        }
    }

    pub fn as_sockaddr(&self) -> (sa: &sockaddr_tipc)
        ensures
            *sa == self.address,
    {
        &self.address
    }

    /// The size of the address in its C layout.
    pub fn addr_len(&self) -> (n: usize)
        ensures
            n == SOCKADDR_TIPC_LEN,
    {
        SOCKADDR_TIPC_LEN
    }
}

/// The service name sequence written in `c`, as `service_name` reads it.
fn parse_service_name(c: &[char]) -> (r: Option<(u32, u32, u32)>)
    ensures
        r == service_name(c@),
{
    let n = c.len();
    if !(n >= 2 && c[0] == '{' && c[n - 1] == '}') {
        return None;
    }
    let inner = sub_chars(c, 1, n - 1);
    let m = inner.len();
    let p = find_char_from(inner.as_slice(), ',', 0);
    if p >= m {
        return None;
    }
    let q = find_char_from(inner.as_slice(), ',', p + 1);
    if q >= m {
        return None;
    }
    let r = find_char_from(inner.as_slice(), ',', q + 1);
    if r != m {
        proof {
            lemma_find_from(inner@, ',', q + 1);
        }
        return None;
    }
    proof {
        lemma_find_from(inner@, ',', 0);
        lemma_find_from(inner@, ',', p + 1);
    }
    let fa = sub_chars(inner.as_slice(), 0, p);
    let fb = sub_chars(inner.as_slice(), p + 1, q);
    let fc = sub_chars(inner.as_slice(), q + 1, m);
    let ta = trim_chars(fa.as_slice());
    let tb = trim_chars(fb.as_slice());
    let tc = trim_chars(fc.as_slice());
    let t = match parse_u32_chars(ta.as_slice()) {
        Some(v) => v,
        None => return None,
    };
    let l = match parse_u32_chars(tb.as_slice()) {
        Some(v) => v,
        None => return None,
    };
    let u = match parse_u32_chars(tc.as_slice()) {
        Some(v) => v,
        None => return None,
    };
    if t < TIPC_RESERVED_TYPES || u < l {
        return None;
    }
    Some((t, l, u))
}

} // verus!
