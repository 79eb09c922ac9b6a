use vstd::prelude::*;

verus! {

/// An address family number.
pub type ZmqSaFamily = u16;

/// An IPv4 socket address: family, port and address.
#[derive(Debug, Copy, Clone)]
pub struct ZmqSockAddrIn {
    pub family: ZmqSaFamily,
    pub port: u16,
    pub addr: u32,
}

/// An IPv6 socket address: family, port, flow information, address and
/// scope.
#[derive(Debug, Copy, Clone)]
pub struct ZmqSockAddrIn6 {
    pub family: ZmqSaFamily,
    pub port: u16,
    pub flow_info: u32,
    pub addr: [u8; 16],
    pub scope_id: u32,
}

/// A socket address of any family: the family and its raw bytes.
pub struct ZmqSockAddr {
    pub family: ZmqSaFamily,
    pub data: [u8; 14],
}

} // verus!
