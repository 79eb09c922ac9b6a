use std::marker::PhantomData;
use vstd::prelude::*;

verus! {

/// Allocates room for items of type `T`.  Built without a crypto library,
/// it takes the room from the ordinary heap.
pub struct SecureAllocator<T> {
    _phantom: PhantomData<T>,
}

impl<T> SecureAllocator<T> {
    pub fn new() -> (a: Self) {
        SecureAllocator { _phantom: PhantomData }
    }

    /// Room for `count` items: an empty buffer that can hold them.
    pub fn allocate(&self, count: usize) -> (r: Option<Vec<T>>)
        ensures
            r matches Some(v) && v@.len() == 0,
    {
        Some(Vec::with_capacity(count))
    }

    /// Gives the room back.
    pub fn deallocate(&self, buffer: Vec<T>) {
    }
}

} // verus!
