use vstd::prelude::*;

verus! {

/// `n` copies of a default value followed by nothing: appends `n - len`
/// copies of `d` to `v`.
fn fill_to<T: Copy>(v: &mut Vec<T>, n: usize, d: T)
    ensures
        old(v)@.len() >= n ==> final(v)@ == old(v)@,
        old(v)@.len() < n ==> final(v)@.len() == n && final(v)@.subrange(0, old(v)@.len() as int)
            == old(v)@ && forall|i: int| old(v)@.len() <= i < n ==> #[trigger] final(v)@[i] == d,
{
    while v.len() < n
        invariant
            old(v)@.len() < n ==> old(v)@.len() <= v@.len() <= n,
            old(v)@.len() >= n ==> v@ == old(v)@,
            v@.subrange(0, old(v)@.len() as int) == old(v)@,
            old(v)@.len() <= v@.len(),
            forall|i: int| old(v)@.len() <= i < v@.len() ==> #[trigger] v@[i] == d,
        decreases n - v@.len(),
    {
        v.push(d);
        assert(v@.subrange(0, old(v)@.len() as int) =~= old(v)@);
    }
}

/// A buffer of `len` items that lives inline when at most `S` items are
/// asked for, and on the heap otherwise.
pub struct FastVector<T, const S: usize> {
    static_buf: [T; S],
    dynamic_buf: Vec<T>,
    len: usize,
}

impl<T: Default + Copy, const S: usize> FastVector<T, S> {
    /// The items.
    pub closed spec fn items(&self) -> Seq<T> {
        if self.len > S {
            self.dynamic_buf@
        } else {
            self.static_buf@.take(self.len as int)
        }
    }

    pub closed spec fn wf(&self) -> bool {
        self.len > S ==> self.dynamic_buf@.len() == self.len
    }

    /// `nitems` default items.
    pub fn new(nitems: usize) -> (v: Self)
        ensures
            v.wf(),
            v.items().len() == nitems,
            exists|d: T|
                #![trigger T::default.ensures((), d)]
                T::default.ensures((), d) && forall|i: int| 0 <= i < nitems ==> #[trigger] v.items()[i] == d,
    {
        let d = T::default();
        assert(T::default.ensures((), d));
        let static_buf = [d; S];
        let mut dynamic_buf: Vec<T> = Vec::new();
        if nitems > S {
            fill_to(&mut dynamic_buf, nitems, d);
        }
        let v = Self { static_buf, dynamic_buf, len: nitems };
        assert(forall|i: int| 0 <= i < v.items().len() ==> #[trigger] v.items()[i] == d);
        v
    }

    pub fn get(&self, i: usize) -> (r: &T)
        requires
            self.wf(),
            i < self.items().len(),
        ensures
            *r == self.items()[i as int],
    {
        if self.len > S {
            &self.dynamic_buf[i]
        } else {
            &self.static_buf[i]
        }
    }

    /// Item `i`, to read and write in place.
    pub fn get_mut(&mut self, i: usize) -> (r: &mut T)
        requires
            old(self).wf(),
            i < old(self).items().len(),
        ensures
            *r == old(self).items()[i as int],
            final(self).wf(),
            final(self).items() == old(self).items().update(i as int, *final(r)),
    {
        if self.len > S {
            &mut self.dynamic_buf[i]
        } else {
            &mut self.static_buf[i]
        }
    }

    /// Replaces item `i`.
    pub fn set(&mut self, i: usize, value: T)
        requires
            old(self).wf(),
            i < old(self).items().len(),
        ensures
            final(self).wf(),
            final(self).items() == old(self).items().update(i as int, value),
    {
        if self.len > S {
            self.dynamic_buf.set(i, value);
        } else {
            self.static_buf.set(i, value);
            assert(self.items() =~= old(self).items().update(i as int, value));
        }
    }
}

/// A buffer that starts as `S` inline items and moves to the heap when it
/// is resized past them.
pub struct ResizableFastVector<T, const S: usize> {
    static_buf: [T; S],
    dynamic_buf: Option<Vec<T>>,
}

impl<T: Default + Copy, const S: usize> ResizableFastVector<T, S> {
    /// The items.
    pub closed spec fn items(&self) -> Seq<T> {
        match self.dynamic_buf {
            Some(buf) => buf@,
            None => self.static_buf@,
        }
    }

    /// Whether the items are on the heap.
    pub closed spec fn is_dynamic(&self) -> bool {
        self.dynamic_buf is Some
    }

    /// A vector kept inline holds its `S` items.
    pub proof fn lemma_inline_holds_s(&self)
        ensures
            !self.is_dynamic() ==> self.items().len() == S,
    {
        vstd::array::array_len_matches_n(&self.static_buf);
    }

    /// `S` default items, inline.
    pub fn new() -> (v: Self)
        ensures
            !v.is_dynamic(),
            v.items().len() == S,
            exists|d: T|
                #![trigger T::default.ensures((), d)]
                T::default.ensures((), d) && forall|i: int| 0 <= i < S ==> #[trigger] v.items()[i] == d,
    {
        let d = T::default();
        assert(T::default.ensures((), d));
        let v = Self { static_buf: [d; S], dynamic_buf: None };
        assert(forall|i: int| 0 <= i < S ==> #[trigger] v.items()[i] == d);
        v
    }

    /// Makes room for `nitems` items, keeping the first ones and adding
    /// default items.  Inline storage is kept while `nitems` fits in it,
    /// and then keeps all `S` items.
    pub fn resize(&mut self, nitems: usize)
        ensures
            (old(self).is_dynamic() || nitems > S) ==> {
                &&& final(self).is_dynamic()
                &&& nitems <= old(self).items().len() ==> final(self).items() == old(self).items().subrange(
                    0,
                    nitems as int,
                )
                &&& nitems > old(self).items().len() ==> final(self).items().len() == nitems
                    && final(self).items().subrange(0, old(self).items().len() as int) == old(self).items()
                    && exists|d: T|
                    #![trigger T::default.ensures((), d)]
                    T::default.ensures((), d) && forall|i: int|
                        old(self).items().len() <= i < nitems ==> #[trigger] final(self).items()[i] == d
            },
            !(old(self).is_dynamic() || nitems > S) ==> final(self).items() == old(self).items()
                && !final(self).is_dynamic(),
            final(self).items().len() == (if old(self).is_dynamic() || nitems > S {
                nitems as nat
            } else {
                S as nat
            }),
    {
        proof {
            vstd::array::array_len_matches_n(&self.static_buf);
        }
        let d = T::default();
        assert(T::default.ensures((), d));
        match self.dynamic_buf.take() {
            Some(buf) => {
                let mut buf = buf;
                if nitems <= buf.len() {
                    buf.truncate(nitems);
                } else {
                    fill_to(&mut buf, nitems, d);
                }
                self.dynamic_buf = Some(buf);
            },
            None => {
                if nitems > S {
                    let mut new_buf: Vec<T> = Vec::new();
                    let mut i: usize = 0;
                    while i < S
                        invariant
                            i <= S,
                            self.static_buf@.len() == S,
                            new_buf@ == self.static_buf@.take(i as int),
                            self.dynamic_buf is None,
                            self.static_buf == old(self).static_buf,
                        decreases S - i,
                    {
                        new_buf.push(self.static_buf[i]);
                        i += 1;
                        assert(new_buf@ =~= self.static_buf@.take(i as int));
                    }
                    assert(new_buf@ =~= self.static_buf@);
                    fill_to(&mut new_buf, nitems, d);
                    self.dynamic_buf = Some(new_buf);
                }
            },
        }
    }

    /// The items, to read and write.
    pub fn get_buf(&mut self) -> (r: &mut [T])
        ensures
            r@ == old(self).items(),
            final(self).items() == final(r)@,
            final(self).is_dynamic() == old(self).is_dynamic(),
    {
        match &mut self.dynamic_buf {
            Some(buf) => buf.as_mut_slice(),
            None => {
                let r: &mut [T] = &mut self.static_buf;
                r
            },
        }
    }
}

/// How long a poll may wait: not at all on the first pass, forever (-1)
/// for a negative timeout, otherwise until `end`, at most `i32::MAX` ms.
pub open spec fn spec_compute_timeout(first_pass: bool, timeout: i64, now: u64, end: u64) -> i32 {
    if first_pass {
        0
    } else if timeout < 0 {
        -1i32
    } else if end <= now {
        0
    } else if end - now > i32::MAX {
        i32::MAX
    } else {
        (end - now) as i32
    }
}

pub fn compute_timeout(first_pass: bool, timeout: i64, now: u64, end: u64) -> (r: i32)
    ensures
        r == spec_compute_timeout(first_pass, timeout, now, end),
{
    if first_pass {
        return 0;
    }
    if timeout < 0 {
        return -1;
    }
    let left = end.saturating_sub(now);
    if left > i32::MAX as u64 {
        i32::MAX
    } else {
        left as i32
    }
}

} // verus!
