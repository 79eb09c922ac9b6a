use vstd::prelude::*;

verus! {

/// The default thread priority and scheduling policy: the system's.
pub const THREAD_PRIORITY_DEFAULT: i32 = -1;
pub const THREAD_SCHED_POLICY_DEFAULT: i32 = -1;

/// The sixteen bytes a thread's name is kept in: the first fifteen bytes of
/// `name` at most, the rest zero.
pub open spec fn name_bytes(name: Seq<u8>) -> Seq<u8> {
    let n = if name.len() < 15 { name.len() } else { 15 };
    Seq::new(16, |i: int| if i < n { name[i] } else { 0u8 })
}

/// Writes the bytes of a thread's name into its sixteen-byte buffer.
pub fn thread_name(name: &[u8]) -> (buf: [u8; 16])
    ensures
        buf@ == name_bytes(name@),
{
    let mut buf = [0u8; 16];
    let n: usize = if name.len() < 15 { name.len() } else { 15 };
    let mut i: usize = 0;
    while i < n
        invariant
            i <= n <= 15,
            n == (if name@.len() < 15 { name@.len() } else { 15 }),
            n <= name@.len(),
            forall|j: int| 0 <= j < i ==> buf@[j] == name@[j],
            forall|j: int| i <= j < 16 ==> buf@[j] == 0u8,
        decreases n - i,
    {
        buf.set(i, name[i]);
        i += 1;
    }
    assert(buf@ =~= name_bytes(name@));
    buf
}

} // verus!
