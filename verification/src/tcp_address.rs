use crate::socket::{ZmqSockAddrIn, ZmqSockAddrIn6};
use crate::text::{
    all_digits, chars_of, decimal, digits_value, find_char_from, find_from, lemma_decimal,
    lemma_find_from, lemma_parse_decimal, parse_u32, parse_u32_chars, push_decimal, sub_chars,
};
use vstd::prelude::*;

verus! {

/// The IPv4 address family.
pub const AF_INET: u16 = 2;
/// The IPv6 address family.
pub const AF_INET6: u16 = 10;
/// The size in bytes of an IPv4 socket address.
pub const SOCKADDR_IN_LEN: usize = 16;
/// The size in bytes of an IPv6 socket address.
pub const SOCKADDR_IN6_LEN: usize = 28;

// ---------------------------------------------------------------------------
// IPv4 text.
// ---------------------------------------------------------------------------

/// One field of a dotted IPv4 address, as `Ipv4Addr::from_str` reads it:
/// one to three decimal digits, no leading zero, at most 255.
pub open spec fn parse_octet(s: Seq<char>) -> Option<u8> {
    if 1 <= s.len() <= 3 && all_digits(s) && !(s.len() > 1 && s[0] == '0') && digits_value(s)
        <= 255 {
        Some(digits_value(s) as u8)
    } else {
        None
    }
}

/// The four bytes of the IPv4 address `Ipv4Addr::from_str` reads in `s`:
/// four fields split at '.', each an octet.
pub open spec fn parse_ipv4(s: Seq<char>) -> Option<Seq<u8>> {
    let p1 = find_from(s, '.', 0);
    let p2 = find_from(s, '.', p1 + 1);
    let p3 = find_from(s, '.', p2 + 1);
    let p4 = find_from(s, '.', p3 + 1);
    if p1 < s.len() && p2 < s.len() && p3 < s.len() && p4 == s.len() {
        match (
            parse_octet(s.subrange(0, p1)),
            parse_octet(s.subrange(p1 + 1, p2)),
            parse_octet(s.subrange(p2 + 1, p3)),
            parse_octet(s.subrange(p3 + 1, s.len() as int)),
        ) {
            (Some(a), Some(b), Some(c), Some(d)) => Some(seq![a, b, c, d]),
            _ => None,
        }
    } else {
        None
    }
}

proof fn lemma_three_digits(s: Seq<char>)
    requires
        1 <= s.len() <= 3,
        all_digits(s),
    ensures
        0 <= digits_value(s) < 1000,
        parse_u32(s) == Some(digits_value(s) as u32),
{
    reveal_with_fuel(digits_value, 4);
    assert(crate::text::is_digit(s[0]));
    assert(s.drop_last().len() == 0 ==> digits_value(s.drop_last()) == 0);
    if s.len() >= 2 {
        assert(crate::text::is_digit(s[1]));
        assert(s.drop_last().drop_last().len() == s.len() - 2);
    }
    if s.len() == 3 {
        assert(crate::text::is_digit(s[2]));
    }
}

fn parse_octet_chars(s: &[char]) -> (r: Option<u8>)
    ensures
        r == parse_octet(s@),
{
    let n = s.len();
    if n < 1 || n > 3 || (n > 1 && s[0] == '0') {
        return None;
    }
    let mut k: usize = 0;
    while k < n
        invariant
            k <= n == s@.len(),
            forall|j: int| 0 <= j < k ==> crate::text::is_digit(#[trigger] s@[j]),
        decreases n - k,
    {
        if !('0' <= s[k] && s[k] <= '9') {
            assert(!crate::text::is_digit(s@[k as int]));
            return None;
        }
        k += 1;
    }
    proof {
        lemma_three_digits(s@);
    }
    match parse_u32_chars(s) {
        Some(v) => {
            if v <= 255 {
                Some(v as u8)
            } else {
                None
            }
        },
        None => None,
    }
}

fn parse_ipv4_chars(s: &[char]) -> (r: Option<[u8; 4]>)
    ensures
        match r {
            Some(a) => parse_ipv4(s@) == Some(a@),
            None => parse_ipv4(s@) is None,
        },
{
    let n = s.len();
    let p1 = find_char_from(s, '.', 0);
    if p1 >= n {
        return None;
    }
    let p2 = find_char_from(s, '.', p1 + 1);
    if p2 >= n {
        return None;
    }
    let p3 = find_char_from(s, '.', p2 + 1);
    if p3 >= n {
        return None;
    }
    let p4 = find_char_from(s, '.', p3 + 1);
    if p4 != n {
        proof {
            lemma_find_from(s@, '.', p3 + 1);
        }
        return None;
    }
    proof {
        lemma_find_from(s@, '.', 0);
        lemma_find_from(s@, '.', p1 + 1);
        lemma_find_from(s@, '.', p2 + 1);
    }
    let f1 = sub_chars(s, 0, p1);
    let f2 = sub_chars(s, p1 + 1, p2);
    let f3 = sub_chars(s, p2 + 1, p3);
    let f4 = sub_chars(s, p3 + 1, n);
    let a = match parse_octet_chars(f1.as_slice()) {
        Some(v) => v,
        None => return None,
    };
    let b = match parse_octet_chars(f2.as_slice()) {
        Some(v) => v,
        None => return None,
    };
    let c = match parse_octet_chars(f3.as_slice()) {
        Some(v) => v,
        None => return None,
    };
    let d = match parse_octet_chars(f4.as_slice()) {
        Some(v) => v,
        None => return None,
    };
    let r = [a, b, c, d];
    assert(r@ =~= seq![a, b, c, d]);
    Some(r)
}

/// The number an IPv4 address's four bytes make, most significant first.
pub open spec fn ipv4_number(o: Seq<u8>) -> u32 {
    (o[0] as u32 * 0x100_0000 + o[1] as u32 * 0x1_0000 + o[2] as u32 * 0x100 + o[3] as u32) as u32
}

/// The four bytes of an IPv4 address's number, most significant first.
pub open spec fn ipv4_octets(n: u32) -> Seq<u8> {
    seq![(n / 0x100_0000) as u8, ((n / 0x1_0000) % 0x100) as u8, ((n / 0x100) % 0x100) as u8, (n % 0x100) as u8]
}

/// `a.b.c.d`.
pub open spec fn ipv4_text(n: u32) -> Seq<char> {
    let o = ipv4_octets(n);
    decimal(o[0] as nat) + "."@ + decimal(o[1] as nat) + "."@ + decimal(o[2] as nat) + "."@
        + decimal(o[3] as nat)
}

// ---------------------------------------------------------------------------
// Addresses.
// ---------------------------------------------------------------------------

/// An IP socket address. An IPv4 address holds its port and the number its
/// four bytes make, most significant first.
#[derive(Clone)]
pub enum IpAddrEnum {
    V4(ZmqSockAddrIn),
    V6(ZmqSockAddrIn6),
}

/// The IPv4 address 0.0.0.0, port 0.
pub open spec fn zero_v4() -> IpAddrEnum {
    IpAddrEnum::V4(ZmqSockAddrIn { family: 0, port: 0, addr: 0 })
}

fn new_zero_v4() -> (a: IpAddrEnum)
    ensures
        a == zero_v4(),
{
    IpAddrEnum::V4(ZmqSockAddrIn { family: 0, port: 0, addr: 0 })
}

/// The last index of `c` in `s`, or -1.
pub open spec fn rfind_from(s: Seq<char>, c: char, j: int) -> int
    decreases j,
{
    if j <= 0 || j > s.len() {
        -1
    } else if s[j - 1] == c {
        j - 1
    } else {
        rfind_from(s, c, j - 1)
    }
}

pub open spec fn rfind(s: Seq<char>, c: char) -> int {
    rfind_from(s, c, s.len() as int)
}

proof fn lemma_rfind(s: Seq<char>, c: char, j: int)
    requires
        0 <= j <= s.len(),
    ensures
        -1 <= rfind_from(s, c, j) < j,
        rfind_from(s, c, j) >= 0 ==> s[rfind_from(s, c, j)] == c,
    decreases j,
{
    if j > 0 && s[j - 1] != c {
        lemma_rfind(s, c, j - 1);
    }
}

fn rfind_char(s: &[char], c: char) -> (r: Option<usize>)
    ensures
        match r {
            Some(i) => i == rfind(s@, c) && i < s@.len(),
            None => rfind(s@, c) == -1,
        },
{
    let mut j: usize = s.len();
    while j > 0 && s[j - 1] != c
        invariant
            j <= s@.len(),
            rfind(s@, c) == rfind_from(s@, c, j as int),
        decreases j,
    {
        j -= 1;
    }
    if j == 0 {
        None
    } else {
        Some(j - 1)
    }
}

/// What `u16::from_str` makes of `s`.
pub open spec fn parse_u16(s: Seq<char>) -> Option<u16> {
    match parse_u32(s) {
        Some(v) => if v <= u16::MAX {
            Some(v as u16)
        } else {
            None
        },
        None => None,
    }
}

/// The host text and the port that `host:port` names: the port after the
/// last ':', the host before it.
pub open spec fn host_port(name: Seq<char>) -> Option<(Seq<char>, u16)> {
    let c = rfind(name, ':');
    if c < 0 {
        None
    } else {
        match parse_u16(name.subrange(c + 1, name.len() as int)) {
            None => None,
            Some(port) => Some((name.subrange(0, c), port)),
        }
    }
}

/// The IPv4 socket address `host:port` names, where the host is an IPv4
/// address.
pub open spec fn ipv4_address_from_text(name: Seq<char>) -> Option<ZmqSockAddrIn> {
    match host_port(name) {
        None => None,
        Some((host, port)) => match parse_ipv4(host) {
            Some(o) => Some(ZmqSockAddrIn { family: AF_INET, port, addr: ipv4_number(o) }),
            None => None,
        },
    }
}

/// Splits `host:port` at its last ':' and reads the port.
pub fn split_host_port(name: &[char]) -> (r: Option<(Vec<char>, u16)>)
    ensures
        match r {
            Some((host, port)) => host_port(name@) == Some((host@, port)),
            None => host_port(name@) is None,
        },
{
    let c = match rfind_char(name, ':') {
        Some(c) => c,
        None => return None,
    };
    assert(c < name@.len() == name.len());
    let host = sub_chars(name, 0, c);
    let port_text = sub_chars(name, c + 1, name.len());
    match parse_u32_chars(port_text.as_slice()) {
        Some(v) => {
            if v > 65535 {
                return None;
            }
            Some((host, v as u16))
        },
        None => None,
    }
}

/// Reads `host:port` with an IPv4 host into a socket address.
pub fn resolve_ipv4_address(name: &[char]) -> (r: Option<ZmqSockAddrIn>)
    ensures
        r == ipv4_address_from_text(name@),
{
    let (host, port) = match split_host_port(name) {
        Some(hp) => hp,
        None => return None,
    };
    match parse_ipv4_chars(host.as_slice()) {
        Some(o) => {
            let n: u32 = (o[0] as u32) * 0x100_0000 + (o[1] as u32) * 0x1_0000 + (o[2] as u32)
                * 0x100 + (o[3] as u32);
            Some(ZmqSockAddrIn { family: AF_INET, port, addr: n })
        },
        None => None,
    }
}

/// `name` cut at its last `c`: what comes before it and, where there is
/// such a `c`, what comes after.
pub open spec fn split_last(name: Seq<char>, c: char) -> (Seq<char>, Option<Seq<char>>) {
    let i = rfind(name, c);
    if i >= 0 {
        (name.subrange(0, i), Some(name.subrange(i + 1, name.len() as int)))
    } else {
        (name, None)
    }
}

/// Cuts `name` at its last `c`.
pub fn split_at_last(name: &[char], c: char) -> (r: (Vec<char>, Option<Vec<char>>))
    ensures
        split_last(name@, c) == (r.0@, match r.1 {
            Some(v) => Some(v@),
            None => None::<Seq<char>>,
        }),
{
    match rfind_char(name, c) {
        Some(i) => {
            assert(i < name@.len() == name.len());
            (sub_chars(name, 0, i), Some(sub_chars(name, i + 1, name.len())))
        },
        None => (sub_chars(name, 0, name.len()), None),
    }
}

/// `tcp://a.b.c.d:port`.
pub open spec fn ipv4_endpoint_text(sa: ZmqSockAddrIn) -> Seq<char> {
    "tcp://"@ + ipv4_text(sa.addr) + ":"@ + decimal(sa.port as nat)
}

/// Writes an IPv4 socket address as `tcp://a.b.c.d:port`.
pub fn ipv4_endpoint(sa: &ZmqSockAddrIn) -> (s: String)
    ensures
        s@ == ipv4_endpoint_text(*sa),
{
    let mut s = String::new();
    s.append("tcp://");
    let n = sa.addr;
    push_decimal(&mut s, n / 0x100_0000);
    s.append(".");
    push_decimal(&mut s, (n / 0x1_0000) % 0x100);
    s.append(".");
    push_decimal(&mut s, (n / 0x100) % 0x100);
    s.append(".");
    push_decimal(&mut s, n % 0x100);
    s.append(":");
    push_decimal(&mut s, sa.port as u32);
    assert(s@ =~= ipv4_endpoint_text(*sa));
    s
}

/// A TCP address: where to connect or bind, and the local address to
/// connect from where one was given.
pub struct TcpAddress {
    pub address: IpAddrEnum,
    pub source_address: IpAddrEnum,
    pub has_src_addr: bool,
}

/// A network and how many leading bits of it an address must share.
pub struct TcpAddressMask {
    pub network_address: IpAddrEnum,
    pub address_mask: i32,
}

/// The mask length `/mask` gives, with `max` bits in all: `None` without a
/// mask, `0` for "0", else a number from 1 to `max`.
pub open spec fn mask_from_text(mask: Option<Seq<char>>, max: i32) -> Option<i32> {
    match mask {
        None => Some(max),
        Some(m) => if m == seq!['0'] {
            Some(0)
        } else {
            match parse_i32(m) {
                Some(v) => if 1 <= v <= max {
                    Some(v)
                } else {
                    None
                },
                None => None,
            }
        },
    }
}

/// What `i32::from_str` makes of `s`: an optional sign (not alone), then
/// decimal digits whose value fits.
pub open spec fn parse_i32(s: Seq<char>) -> Option<i32> {
    if s.len() > 1 && s[0] == '-' {
        let d = s.drop_first();
        if d.len() > 0 && all_digits(d) && digits_value(d) <= 0x8000_0000 {
            Some((-digits_value(d)) as i32)
        } else {
            None
        }
    } else {
        match parse_u32(s) {
            Some(v) => if v <= i32::MAX {
                Some(v as i32)
            } else {
                None
            },
            None => None,
        }
    }
}

fn parse_i32_chars(s: &[char]) -> (r: Option<i32>)
    ensures
        r == parse_i32(s@),
{
    let n = s.len();
    if n > 1 && s[0] == '-' {
        let d = sub_chars(s, 1, n);
        assert(d@ =~= s@.drop_first());
        if d.len() > 0 && d[0] == '+' && d.len() > 1 {
            proof {
                assert(!crate::text::is_digit(d@[0]));
            }
            return None;
        }
        assert(!(d@.len() > 1 && d@[0] == '+'));
        match parse_u32_chars(d.as_slice()) {
            Some(v) => {
                if v <= 0x8000_0000 {
                    proof {
                        crate::text::lemma_digits_nonneg(d@);
                    }
                    if v == 0x8000_0000 {
                        Some(i32::MIN)
                    } else {
                        Some(-(v as i32))
                    }
                } else {
                    proof {
                        crate::text::lemma_digits_nonneg(d@);
                    }
                    None
                }
            },
            None => None,
        }
    } else {
        match parse_u32_chars(s) {
            Some(v) => {
                if v <= 0x7fff_ffff {
                    Some(v as i32)
                } else {
                    None
                }
            },
            None => None,
        }
    }
}

/// The mask length of `mask` (the text after '/', if any) for a network of
/// 128 bits where `ipv6` is set and 32 otherwise, or `None` where it is no
/// such length.
pub fn mask_length(mask: Option<&[char]>, ipv6: bool) -> (r: Option<i32>)
    ensures
        r == mask_from_text(
            match mask {
                Some(m) => Some(m@),
                None => None::<Seq<char>>,
            },
            if ipv6 { 128i32 } else { 32i32 },
        ),
{
    let max: i32 = if ipv6 { 128 } else { 32 };
    match mask {
        None => Some(max),
        Some(m) => {
            if m.len() == 1 && m[0] == '0' {
                assert(m@ =~= seq!['0']);
                return Some(0);
            }
            assert(m@ != seq!['0']);
            match parse_i32_chars(m) {
                Some(v) => {
                    if v < 1 || v > max {
                        None
                    } else {
                        Some(v)
                    }
                },
                None => None,
            }
        },
    }
}

/// An IPv4 socket address read from `host:port`, as an address of either
/// family.
pub open spec fn ipv4_host(name: Seq<char>) -> Option<IpAddrEnum> {
    match ipv4_address_from_text(name) {
        Some(sa) => Some(IpAddrEnum::V4(sa)),
        None => None,
    }
}

/// The parts of `[source;]host:port`, each read as an IPv4 socket address:
/// the source (`None` where no ';' comes in the name) and the destination.
pub open spec fn ipv4_parts(name: Seq<char>) -> (Option<Option<IpAddrEnum>>, Option<IpAddrEnum>) {
    match split_last(name, ';') {
        (first, Some(dest)) => (Some(ipv4_host(first)), ipv4_host(dest)),
        (first, None) => (None, ipv4_host(first)),
    }
}

/// What resolving a name leaves in `a`, and what it returns, given how its
/// source part (where it has one) and its destination part read: the source
/// is read first, and a part that does not read ends the work with `-1`,
/// leaving what was set before it.
pub open spec fn resolved_into(
    a: TcpAddress,
    source: Option<Option<IpAddrEnum>>,
    dest: Option<IpAddrEnum>,
) -> (TcpAddress, Result<(), i32>) {
    match source {
        Some(None) => (a, Err(-1i32)),
        Some(Some(s)) => {
            let a1 = TcpAddress { address: a.address, source_address: s, has_src_addr: true };
            match dest {
                Some(d) => (TcpAddress { address: d, ..a1 }, Ok(())),
                None => (a1, Err(-1i32)),
            }
        },
        None => match dest {
            Some(d) => (TcpAddress { address: d, ..a }, Ok(())),
            None => (a, Err(-1i32)),
        },
    }
}

impl TcpAddress {
    pub fn new() -> (a: Self)
        ensures
            a.address == zero_v4(),
            a.source_address == zero_v4(),
            !a.has_src_addr,
    {
        TcpAddress { address: new_zero_v4(), source_address: new_zero_v4(), has_src_addr: false }
    }

    /// The address in the socket address `sa` of family `family`, where it
    /// is an IPv4 or IPv6 address long enough; else a new address.
    pub fn from_sockaddr(family: u16, sa: &[u8]) -> (a: Self)
        ensures
            !a.has_src_addr,
            a.source_address == zero_v4(),
            family == AF_INET && sa@.len() >= SOCKADDR_IN_LEN ==> a.address == IpAddrEnum::V4(
                ZmqSockAddrIn {
                    family: AF_INET,
                    port: (sa@[2] as u16 * 256 + sa@[3] as u16) as u16,
                    addr: ipv4_number(sa@.subrange(4, 8)),
                },
            ),
            family == AF_INET6 && sa@.len() >= SOCKADDR_IN6_LEN ==> (a.address matches IpAddrEnum::V6(x)
                && x.family == AF_INET6 && x.port == (sa@[2] as u16 * 256 + sa@[3] as u16) as u16
                && x.addr@ == sa@.subrange(8, 24)),
            !(family == AF_INET && sa@.len() >= SOCKADDR_IN_LEN) && !(family == AF_INET6
                && sa@.len() >= SOCKADDR_IN6_LEN) ==> a.address == zero_v4(),
    {
        let mut a = TcpAddress::new();
        if family == AF_INET && sa.len() >= SOCKADDR_IN_LEN {
            let port: u16 = (sa[2] as u16) * 256 + (sa[3] as u16);
            let n: u32 = (sa[4] as u32) * 0x100_0000 + (sa[5] as u32) * 0x1_0000 + (sa[6] as u32)
                * 0x100 + (sa[7] as u32);
            a.address = IpAddrEnum::V4(ZmqSockAddrIn { family: AF_INET, port, addr: n });
        } else if family == AF_INET6 && sa.len() >= SOCKADDR_IN6_LEN {
            let port: u16 = (sa[2] as u16) * 256 + (sa[3] as u16);
            let flow: u32 = (sa[4] as u32) * 0x100_0000 + (sa[5] as u32) * 0x1_0000 + (sa[6] as u32)
                * 0x100 + (sa[7] as u32);
            let mut addr: [u8; 16] = [0u8; 16];
            let mut i: usize = 0;
            while i < 16
                invariant
                    i <= 16,
                    sa@.len() >= SOCKADDR_IN6_LEN,
                    forall|j: int| 0 <= j < i ==> addr@[j] == sa@[8 + j],
                decreases 16 - i,
            {
                addr.set(i, sa[8 + i]);
                i += 1;
            }
            assert(addr@ =~= sa@.subrange(8, 24));
            let scope: u32 = (sa[27] as u32) * 0x100_0000 + (sa[26] as u32) * 0x1_0000 + (sa[25]
                as u32) * 0x100 + (sa[24] as u32);
            a.address = IpAddrEnum::V6(
                ZmqSockAddrIn6 { family: AF_INET6, port, flow_info: flow, addr, scope_id: scope },
            );
        }
        a
    }

    /// Stores the parts of a resolved name: `source` is how the part
    /// before the last ';' read, where there is one, and `dest` how the
    /// destination read.
    pub fn set_resolved(&mut self, source: Option<Option<IpAddrEnum>>, dest: Option<IpAddrEnum>) -> (r:
        Result<(), i32>)
        ensures
            (*final(self), r) == resolved_into(*old(self), source, dest),
    {
        match source {
            Some(None) => return Err(-1),
            Some(Some(s)) => {
                self.source_address = s;
                self.has_src_addr = true;
            },
            None => {},
        }
        match dest {
            Some(d) => {
                self.address = d;
                Ok(())
            },
            None => Err(-1),
        }
    }

    /// Reads `[source;]host:port` with IPv4 hosts: the destination, and
    /// where a ';' comes before it, the source address to connect from.
    pub fn resolve_ipv4(&mut self, name: &[char]) -> (r: Result<(), i32>)
        ensures
            (*final(self), r) == resolved_into(*old(self), ipv4_parts(name@).0, ipv4_parts(name@).1),
    {
        let (first, rest) = split_at_last(name, ';');
        match rest {
            Some(dest) => {
                let s = match resolve_ipv4_address(first.as_slice()) {
                    Some(sa) => Some(IpAddrEnum::V4(sa)),
                    None => None,
                };
                let d = match resolve_ipv4_address(dest.as_slice()) {
                    Some(sa) => Some(IpAddrEnum::V4(sa)),
                    None => None,
                };
                self.set_resolved(Some(s), d)
            },
            None => {
                let d = match resolve_ipv4_address(first.as_slice()) {
                    Some(sa) => Some(IpAddrEnum::V4(sa)),
                    None => None,
                };
                self.set_resolved(None, d)
            },
        }
    }
}

impl TcpAddressMask {
    pub fn new() -> (m: Self)
        ensures
            m.network_address == zero_v4(),
            m.address_mask == -1,
    {
        TcpAddressMask { network_address: new_zero_v4(), address_mask: -1 }
    }

    /// Stores a resolved `address[/mask]`: `network` is how the address
    /// read and `mask` the text after the last '/', if any, for a network
    /// of 128 bits where `ipv6` is set and 32 otherwise. The address is kept
    /// where it reads though the mask does not.
    pub fn set_resolved(&mut self, network: Option<IpAddrEnum>, mask: Option<&[char]>, ipv6: bool) -> (r:
        Result<(), i32>)
        ensures
            match network {
                None => *final(self) == *old(self) && r == Err::<(), i32>(-1i32),
                Some(n) => final(self).network_address == n && match mask_from_text(
                    match mask {
                        Some(m) => Some(m@),
                        None => None::<Seq<char>>,
                    },
                    if ipv6 { 128i32 } else { 32i32 },
                ) {
                    Some(len) => final(self).address_mask == len && r == Ok::<(), i32>(()),
                    None => final(self).address_mask == old(self).address_mask && r == Err::<(), i32>(-1i32),
                },
            },
    {
        match network {
            None => Err(-1),
            Some(n) => {
                self.network_address = n;
                match mask_length(mask, ipv6) {
                    Some(len) => {
                        self.address_mask = len;
                        Ok(())
                    },
                    None => Err(-1),
                }
            },
        }
    }

    /// Reads `address[/mask]` with an IPv4 address, the mask 32 bits at most.
    pub fn resolve_ipv4(&mut self, name: &[char]) -> (r: Result<(), i32>)
        ensures
            match ipv4_host(split_last(name@, '/').0) {
                None => *final(self) == *old(self) && r == Err::<(), i32>(-1i32),
                Some(n) => final(self).network_address == n && match mask_from_text(split_last(name@, '/').1, 32i32) {
                    Some(len) => final(self).address_mask == len && r == Ok::<(), i32>(()),
                    None => final(self).address_mask == old(self).address_mask && r == Err::<(), i32>(-1i32),
                },
            },
    {
        let (addr_text, mask_text) = split_at_last(name, '/');
        let network = match resolve_ipv4_address(addr_text.as_slice()) {
            Some(sa) => Some(IpAddrEnum::V4(sa)),
            None => None,
        };
        match mask_text {
            Some(m) => self.set_resolved(network, Some(m.as_slice()), false),
            None => self.set_resolved(network, None, false),
        }
    }

    /// Whether an address lies in the network; every address does.
    pub fn match_address(&self, _sa: &[u8]) -> (r: bool)
        ensures
            r,
    {
        true
    }
}

proof fn lemma_find_first(s: Seq<char>, c: char, i: int, j: int)
    requires
        0 <= i <= j <= s.len(),
        j < s.len() ==> s[j] == c,
        forall|k: int| i <= k < j ==> s[k] != c,
    ensures
        find_from(s, c, i) == j,
    decreases j - i,
{
    if i < j {
        lemma_find_first(s, c, i + 1, j);
    }
}

proof fn lemma_rfind_last(s: Seq<char>, c: char, i: int, j: int)
    requires
        0 <= i < j <= s.len(),
        s[i] == c,
        forall|k: int| i < k < j ==> s[k] != c,
    ensures
        rfind_from(s, c, j) == i,
    decreases j - i,
{
    if j - 1 > i {
        lemma_rfind_last(s, c, i, j - 1);
    }
}

/// The octet texts `decimal` writes read back.
proof fn lemma_parse_octet(n: u8)
    ensures
        parse_octet(decimal(n as nat)) == Some(n),
        decimal(n as nat).len() >= 1,
        forall|k: int| 0 <= k < decimal(n as nat).len() ==> decimal(n as nat)[k] != '.' && decimal(
            n as nat,
        )[k] != ':',
{
    lemma_decimal(n as nat);
    let d = decimal(n as nat);
    assert forall|k: int| 0 <= k < d.len() implies d[k] != '.' && d[k] != ':' by {
        assert(crate::text::is_digit(d[k]));
    }
}

proof fn lemma_ipv4_octets(n: u32)
    ensures
        ipv4_number(ipv4_octets(n)) == n,
{
    let o = ipv4_octets(n);
    let a = n / 0x100_0000;
    let b = (n / 0x1_0000) % 0x100;
    let c = (n / 0x100) % 0x100;
    let d = n % 0x100;
    assert(a < 0x100);
    assert(o[0] == a && o[1] == b && o[2] == c && o[3] == d);
    assert(a * 0x100_0000 + b * 0x1_0000 + c * 0x100 + d == n) by (nonlinear_arith)
        requires
            a == n / 0x100_0000,
            b == (n / 0x1_0000) % 0x100,
            c == (n / 0x100) % 0x100,
            d == n % 0x100,
    ;
}

/// What `ipv4_endpoint` writes after `tcp://` reads back as the same
/// address: `a.b.c.d:port` is the socket address it was written from.
pub proof fn law_ipv4_text_reads_back(sa: ZmqSockAddrIn)
    requires
        sa.family == AF_INET,
    ensures
        ipv4_address_from_text(ipv4_text(sa.addr) + ":"@ + decimal(sa.port as nat)) == Some(sa),
{
    reveal_strlit(".");
    reveal_strlit(":");
    let o = ipv4_octets(sa.addr);
    let (a, b, c, d) = (o[0], o[1], o[2], o[3]);
    lemma_parse_octet(a);
    lemma_parse_octet(b);
    lemma_parse_octet(c);
    lemma_parse_octet(d);
    let da = decimal(a as nat);
    let db = decimal(b as nat);
    let dc = decimal(c as nat);
    let dd = decimal(d as nat);
    let host = ipv4_text(sa.addr);
    assert(host =~= da + seq!['.'] + db + seq!['.'] + dc + seq!['.'] + dd);
    let p1 = da.len() as int;
    let p2 = p1 + 1 + db.len();
    let p3 = p2 + 1 + dc.len();
    assert(host.subrange(0, p1) =~= da);
    assert(host.subrange(p1 + 1, p2) =~= db);
    assert(host.subrange(p2 + 1, p3) =~= dc);
    assert(host.subrange(p3 + 1, host.len() as int) =~= dd);
    assert forall|k: int| 0 <= k < p1 implies host[k] != '.' by {
        assert(host[k] == da[k]);
    }
    assert forall|k: int| p1 + 1 <= k < p2 implies host[k] != '.' by {
        assert(host[k] == db[k - p1 - 1]);
    }
    assert forall|k: int| p2 + 1 <= k < p3 implies host[k] != '.' by {
        assert(host[k] == dc[k - p2 - 1]);
    }
    assert forall|k: int| p3 + 1 <= k < host.len() implies host[k] != '.' by {
        assert(host[k] == dd[k - p3 - 1]);
    }
    lemma_find_first(host, '.', 0, p1);
    lemma_find_first(host, '.', p1 + 1, p2);
    lemma_find_first(host, '.', p2 + 1, p3);
    lemma_find_first(host, '.', p3 + 1, host.len() as int);
    assert(parse_ipv4(host) == Some(seq![a, b, c, d]));
    lemma_ipv4_octets(sa.addr);
    assert(seq![a, b, c, d] =~= o);

    crate::text::lemma_decimal(sa.port as nat);
    lemma_parse_decimal(sa.port as u32);
    let dp = decimal(sa.port as nat);
    let name = host + seq![':'] + dp;
    assert(ipv4_text(sa.addr) + ":"@ + decimal(sa.port as nat) =~= name);
    assert forall|k: int| 0 <= k < host.len() implies host[k] != ':' by {
        if k < p1 {
            assert(host[k] == da[k]);
        } else if k == p1 || k == p2 || k == p3 {
        } else if k < p2 {
            assert(host[k] == db[k - p1 - 1]);
        } else if k < p3 {
            assert(host[k] == dc[k - p2 - 1]);
        } else {
            assert(host[k] == dd[k - p3 - 1]);
        }
    }
    assert forall|k: int| host.len() < k < name.len() implies name[k] != ':' by {
        assert(name[k] == dp[k - host.len() - 1]);
        assert(crate::text::is_digit(dp[k - host.len() - 1]));
    }
    lemma_rfind_last(name, ':', host.len() as int, name.len() as int);
    assert(name.subrange(0, host.len() as int) =~= host);
    assert(name.subrange(host.len() as int + 1, name.len() as int) =~= dp);
}

/// Every mask length from 1 up to the width of the network (32 bits for
/// IPv4, 128 for IPv6), written in decimal, reads as that length: the full
/// width is a mask like any other. "0" reads as 0 and no mask as the full
/// width.
pub proof fn law_mask_lengths_accepted(v: i32, ipv6: bool)
    requires
        1 <= v <= (if ipv6 { 128i32 } else { 32i32 }),
    ensures
        mask_from_text(Some(decimal(v as nat)), if ipv6 { 128i32 } else { 32i32 }) == Some(v),
        mask_from_text(Some(seq!['0']), if ipv6 { 128i32 } else { 32i32 }) == Some(0i32),
        mask_from_text(None, if ipv6 { 128i32 } else { 32i32 }) == Some(if ipv6 { 128i32 } else { 32i32 }),
{
    lemma_parse_decimal(v as u32);
    lemma_decimal(v as nat);
    let s = decimal(v as nat);
    assert(s[0] != '0');
    assert(s != seq!['0']);
}

} // verus!
