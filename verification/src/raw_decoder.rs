use vstd::prelude::*;

verus! {

/// A message being filled by the decoder: its bytes, and whether they live
/// in the decoder's shared buffer.
pub struct Msg {
    data: Vec<u8>,
    is_zcmsg: bool,
}

impl Msg {
    pub closed spec fn body(&self) -> Seq<u8> {
        self.data@
    }

    pub closed spec fn spec_is_zcmsg(&self) -> bool {
        self.is_zcmsg
    }

    fn init(&mut self) -> (r: Result<(), DecoderError>)
        ensures
            r is Ok,
            *final(self) == *old(self),
    {
        Ok(())
    }

    fn init_with_data(&mut self, data: &[u8], provide_content: bool) -> (r: Result<(), DecoderError>)
        ensures
            r is Ok,
            final(self).body() == data@,
            final(self).spec_is_zcmsg() == provide_content,
    {
        self.data = vstd::slice::slice_to_vec(data);
        self.is_zcmsg = provide_content;
        Ok(())
    }

    fn close(&mut self) -> (r: Result<(), DecoderError>)
        ensures
            r is Ok,
            final(self).body() == Seq::<u8>::empty(),
            final(self).spec_is_zcmsg() == old(self).spec_is_zcmsg(),
    {
        self.data.clear();
        Ok(())
    }

    fn is_zcmsg(&self) -> (r: bool)
        ensures
            r == self.spec_is_zcmsg(),
    {
        self.is_zcmsg
    }
}

/// Why the raw decoder failed; it has no failing step, so this is never
/// returned.
#[derive(Debug, Clone, Copy, PartialEq, Eq)]
pub enum DecoderError {
    Unavailable,
}

/// The buffer incoming bytes are read into, and whether messages may keep
/// pointing into it.
struct SharedMessageMemoryAllocator {
    buffer: Vec<u8>,
    size: usize,
    provide_content: bool,
}

impl SharedMessageMemoryAllocator {
    closed spec fn wf(&self) -> bool {
        self.buffer@.len() == self.size
    }

    fn zeroes(n: usize) -> (v: Vec<u8>)
        ensures
            v@ == Seq::new(n as nat, |i: int| 0u8),
    {
        let mut v: Vec<u8> = Vec::new();
        while v.len() < n
            invariant
                v@.len() <= n,
                forall|i: int| 0 <= i < v@.len() ==> #[trigger] v@[i] == 0u8,
            decreases n - v@.len(),
        {
            v.push(0u8);
        }
        assert(v@ =~= Seq::new(n as nat, |i: int| 0u8));
        v
    }

    fn new(bufsize: usize, _unused: usize) -> (a: Self)
        ensures
            a.wf(),
            a.size == bufsize,
            !a.provide_content,
    {
        Self { buffer: Self::zeroes(bufsize), size: bufsize, provide_content: false }
    }

    fn allocate(&mut self) -> (r: &mut [u8])
        ensures
            r@ == old(self).buffer@,
            final(self).buffer@ == final(r)@,
            final(self).size == old(self).size,
            final(self).provide_content == old(self).provide_content,
    {
        self.buffer.as_mut_slice()
    }

    fn size(&self) -> (n: usize)
        ensures
            n == self.size,
    {
        self.size
    }

    /// The bytes of the buffer.
    fn buffer(&self) -> (b: &[u8])
        ensures
            b@ == self.buffer@,
    {
        self.buffer.as_slice()
    }

    fn provide_content(&self) -> (r: bool)
        ensures
            r == self.provide_content,
    {
        self.provide_content
    }

    fn advance_content(&mut self)
        ensures
            final(self).provide_content,
            final(self).buffer == old(self).buffer,
            final(self).size == old(self).size,
    {
        self.provide_content = true;
    }

    fn release(&mut self)
        ensures
            final(self).wf(),
            final(self).buffer@ == Seq::new(old(self).size as nat, |i: int| 0u8),
            final(self).size == old(self).size,
            !final(self).provide_content,
    {
        self.buffer = Self::zeroes(self.size);
        self.provide_content = false;
    }
}

/// Takes whatever bytes arrive as one message: a raw connection has no
/// framing.
pub struct RawDecoder {
    in_progress: Msg,
    allocator: SharedMessageMemoryAllocator,
}

impl RawDecoder {
    /// The last message decoded.
    pub closed spec fn message(&self) -> Seq<u8> {
        self.in_progress.body()
    }

    /// The size of the read buffer.
    pub closed spec fn buffer_size(&self) -> nat {
        self.allocator.size as nat
    }

    pub closed spec fn wf(&self) -> bool {
        self.allocator.wf()
    }

    pub fn new(bufsize: usize) -> (r: Result<Self, DecoderError>)
        ensures
            r is Ok,
            r->Ok_0.wf(),
            r->Ok_0.buffer_size() == bufsize,
            r->Ok_0.message() == Seq::<u8>::empty(),
    {
        let mut decoder = Self {
            in_progress: Msg { data: Vec::new(), is_zcmsg: false },
            allocator: SharedMessageMemoryAllocator::new(bufsize, 1),
        };
        let r = decoder.in_progress.init();
        match r {
            Ok(_) => Ok(decoder),
            Err(e) => Err(e),
        }
    }

    /// The buffer to read incoming bytes into, and its size.
    pub fn get_buffer(&mut self) -> (r: (&mut [u8], usize))
        ensures
            r.1 == old(self).buffer_size(),
            old(self).wf() ==> r.0@.len() == r.1,
            final(self).buffer_size() == old(self).buffer_size(),
            final(self).message() == old(self).message(),
    {
        let size = self.allocator.size();
        let data = self.allocator.allocate();
        (data, size)
    }

    /// Takes `data` as the next message; all of it is used.
    pub fn decode(&mut self, data: &[u8]) -> (r: Result<usize, DecoderError>)
        ensures
            r == Ok::<usize, DecoderError>(data@.len() as usize),
            final(self).message() == data@,
            old(self).wf() ==> final(self).wf(),
            final(self).buffer_size() == old(self).buffer_size(),
    {
        let provide = self.allocator.provide_content();
        let rc = self.in_progress.init_with_data(data, provide);
        match rc {
            Ok(_) => {},
            Err(e) => {
                return Err(e);
            },
        }
        if self.in_progress.is_zcmsg() {
            self.allocator.advance_content();
            self.allocator.release();
        }
        Ok(data.len())
    }

    /// Drops a reference to a shared buffer; no buffer is shared here.
    fn call_dec_ref(_data: &[u8]) {
    }
}

} // verus!
