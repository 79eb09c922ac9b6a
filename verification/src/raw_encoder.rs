use vstd::prelude::*;

verus! {

/// The steps of an encoder: where the next bytes to send come from.
pub trait EncoderBase {
    fn next_step(&mut self, data: Option<&[u8]>, size: usize, ready: bool);

    fn in_progress(&mut self) -> &mut Vec<u8>;
}

/// Sends each message's bytes as they are: a raw connection has no
/// framing.
pub struct RawEncoder {
    buffer: Vec<u8>,
    buffer_size: usize,
}

impl RawEncoder {
    /// The bytes waiting to be sent.
    pub closed spec fn pending(&self) -> Seq<u8> {
        self.buffer@
    }

    pub closed spec fn spec_buffer_size(&self) -> usize {
        self.buffer_size
    }

    pub fn new(bufsize: usize) -> (e: Self)
        ensures
            e.pending() == Seq::<u8>::empty(),
            e.spec_buffer_size() == bufsize,
    {
        let mut encoder = RawEncoder { buffer: Vec::new(), buffer_size: bufsize };
        encoder.next_step(None, 0, true);
        encoder
    }

    /// The message is complete: its bytes go out as they are.
    pub fn raw_message_ready(&mut self)
        ensures
            final(self).pending() == old(self).pending(),
            final(self).spec_buffer_size() == old(self).spec_buffer_size(),
    {
        let data = vstd::slice::slice_to_vec(self.buffer.as_slice());
        let size = data.len();
        self.next_step(Some(data.as_slice()), size, true);
    }
}

impl EncoderBase for RawEncoder {
    /// Makes `data`, where given, the bytes to send next.
    fn next_step(&mut self, data: Option<&[u8]>, size: usize, ready: bool)
        ensures
            match data {
                Some(d) => final(self).pending() == d@,
                None => final(self).pending() == old(self).pending(),
            },
            final(self).spec_buffer_size() == old(self).spec_buffer_size(),
    {
        match data {
            Some(d) => {
                self.buffer.clear();
                let mut i: usize = 0;
                while i < d.len()
                    invariant
                        i <= d@.len(),
                        self.buffer@ == d@.take(i as int),
                        self.buffer_size == old(self).buffer_size,
                    decreases d@.len() - i,
                {
                    self.buffer.push(d[i]);
                    i += 1;
                    assert(self.buffer@ =~= d@.take(i as int));
                }
                assert(d@.take(d@.len() as int) =~= d@);
            },
            None => {},
        }
    }

    fn in_progress(&mut self) -> (r: &mut Vec<u8>)
        ensures
            r@ == old(self).pending(),
            final(self).pending() == final(r)@,
            final(self).spec_buffer_size() == old(self).spec_buffer_size(),
    {
        &mut self.buffer
    }
}

} // verus!
