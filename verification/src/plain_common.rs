use vstd::prelude::*;

verus! {

/// The HELLO command name on the wire, its length byte first.
pub open spec fn hello_prefix() -> Seq<u8> {
    seq![5u8, 72u8, 69u8, 76u8, 76u8, 79u8]
}

pub const HELLO_PREFIX_LEN: usize = 6;

pub fn hello_prefix_bytes() -> (v: Vec<u8>)
    ensures
        v@ == hello_prefix(),
{
    let v: Vec<u8> = vec![5u8, 72u8, 69u8, 76u8, 76u8, 79u8];
    assert(v@ =~= hello_prefix());
    v
}

/// The WELCOME command name on the wire, its length byte first.
pub open spec fn welcome_prefix() -> Seq<u8> {
    seq![7u8, 87u8, 69u8, 76u8, 67u8, 79u8, 77u8, 69u8]
}

pub const WELCOME_PREFIX_LEN: usize = 8;

pub fn welcome_prefix_bytes() -> (v: Vec<u8>)
    ensures
        v@ == welcome_prefix(),
{
    let v: Vec<u8> = vec![7u8, 87u8, 69u8, 76u8, 67u8, 79u8, 77u8, 69u8];
    assert(v@ =~= welcome_prefix());
    v
}

/// The INITIATE command name on the wire, its length byte first.
pub open spec fn initiate_prefix() -> Seq<u8> {
    seq![8u8, 73u8, 78u8, 73u8, 84u8, 73u8, 65u8, 84u8, 69u8]
}

pub const INITIATE_PREFIX_LEN: usize = 9;

pub fn initiate_prefix_bytes() -> (v: Vec<u8>)
    ensures
        v@ == initiate_prefix(),
{
    let v: Vec<u8> = vec![8u8, 73u8, 78u8, 73u8, 84u8, 73u8, 65u8, 84u8, 69u8];
    assert(v@ =~= initiate_prefix());
    v
}

/// The READY command name on the wire, its length byte first.
pub open spec fn ready_prefix() -> Seq<u8> {
    seq![5u8, 82u8, 69u8, 65u8, 68u8, 89u8]
}

pub const READY_PREFIX_LEN: usize = 6;

pub fn ready_prefix_bytes() -> (v: Vec<u8>)
    ensures
        v@ == ready_prefix(),
{
    let v: Vec<u8> = vec![5u8, 82u8, 69u8, 65u8, 68u8, 89u8];
    assert(v@ =~= ready_prefix());
    v
}

/// The ERROR command name on the wire, its length byte first.
pub open spec fn error_prefix() -> Seq<u8> {
    seq![5u8, 69u8, 82u8, 82u8, 79u8, 82u8]
}

pub const ERROR_PREFIX_LEN: usize = 6;

pub fn error_prefix_bytes() -> (v: Vec<u8>)
    ensures
        v@ == error_prefix(),
{
    let v: Vec<u8> = vec![5u8, 69u8, 82u8, 82u8, 79u8, 82u8];
    assert(v@ =~= error_prefix());
    v
}

/// The size of a length that fits in one byte.
pub const BRIEF_LEN_SIZE: usize = 1;

} // verus!
