use vstd::prelude::*;

verus! {

/// Room for a socket address of any family, as laid out on 64-bit hosts:
/// the family, padding, and an alignment field.
pub struct ZmqSockaddrStorage {
    pub ss_family: u16,
    pub ss_pad2: [u8; 118],
    pub ss_align: usize,
}

impl ZmqSockaddrStorage {
    /// Storage with every byte zero.
    pub fn new() -> (s: Self)
        ensures
            s.ss_family == 0,
            forall|i: int| 0 <= i < 118 ==> s.ss_pad2@[i] == 0,
            s.ss_align == 0,
    {
        ZmqSockaddrStorage { ss_family: 0, ss_pad2: [0u8; 118], ss_align: 0 }
    }
}

/// The length of a socket address as the C `int` the system calls take (a
/// length above `i32::MAX` wraps).
pub fn zmq_socklen_to_c_int(len: u32) -> (r: i32)
    ensures
        r == len as i32,
{
    len as i32
}

} // verus!
