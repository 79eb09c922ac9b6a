use vstd::prelude::*;

verus! {

/// The five 32-bit chaining words of SHA-1.
pub type Sha1State = (u32, u32, u32, u32, u32);

/// Number of bytes in a SHA-1 digest.
pub const SHA_DIGEST_LENGTH: usize = 20;

// ---------------------------------------------------------------------
// The SHA-1 function (FIPS 180-4, section 6.1), as a mathematical object
// ---------------------------------------------------------------------

pub open spec fn rotl1(x: u32) -> u32 {
    (x << 1u32) | (x >> 31u32)
}

pub open spec fn rotl5(x: u32) -> u32 {
    (x << 5u32) | (x >> 27u32)
}

pub open spec fn rotl30(x: u32) -> u32 {
    (x << 30u32) | (x >> 2u32)
}

/// The round function f_t.
pub open spec fn round_f(t: int, b: u32, c: u32, d: u32) -> u32 {
    if t < 20 {
        (b & c) | (!b & d)
    } else if t < 40 {
        b ^ c ^ d
    } else if t < 60 {
        (b & c) | (b & d) | (c & d)
    } else {
        b ^ c ^ d
    }
}

/// The round constant K_t.
pub open spec fn round_k(t: int) -> u32 {
    if t < 20 {
        0x5a827999u32
    } else if t < 40 {
        0x6ed9eba1u32
    } else if t < 60 {
        0x8f1bbcdcu32
    } else {
        0xca62c1d6u32
    }
}

/// The i-th big-endian 32-bit word of a block.
pub open spec fn be_word(block: Seq<u8>, i: int) -> u32 {
    ((block[4 * i] as u32) << 24u32) | ((block[4 * i + 1] as u32) << 16u32) | ((block[4 * i
        + 2] as u32) << 8u32) | (block[4 * i + 3] as u32)
}

/// The message schedule W_i of one block.
pub open spec fn schedule(block: Seq<u8>, i: nat) -> u32
    decreases i,
{
    if i < 16 {
        be_word(block, i as int)
    } else {
        rotl1(
            schedule(block, (i - 3) as nat) ^ schedule(block, (i - 8) as nat) ^ schedule(
                block,
                (i - 14) as nat,
            ) ^ schedule(block, (i - 16) as nat),
        )
    }
}

/// One round of the compression function.
pub open spec fn round_step(s: Sha1State, t: int, wt: u32) -> Sha1State {
    let temp = rotl5(s.0).wrapping_add(round_f(t, s.1, s.2, s.3)).wrapping_add(s.4).wrapping_add(
        round_k(t),
    ).wrapping_add(wt);
    (temp, s.0, rotl30(s.1), s.2, s.3)
}

/// The working variables after the first `t` rounds on `block`, starting from `h`.
pub open spec fn rounds(h: Sha1State, block: Seq<u8>, t: nat) -> Sha1State
    decreases t,
{
    if t == 0 {
        h
    } else {
        let t1 = (t - 1) as nat;
        round_step(rounds(h, block, t1), t1 as int, schedule(block, t1))
    }
}

/// The compression function: 80 rounds, then the feed-forward addition.
pub open spec fn compress(h: Sha1State, block: Seq<u8>) -> Sha1State {
    let s = rounds(h, block, 80);
    (
        h.0.wrapping_add(s.0),
        h.1.wrapping_add(s.1),
        h.2.wrapping_add(s.2),
        h.3.wrapping_add(s.3),
        h.4.wrapping_add(s.4),
    )
}

/// Chaining `compress` over the complete 64-byte blocks of `m` (a trailing
/// partial block is ignored).
pub open spec fn hash_blocks(h: Sha1State, m: Seq<u8>) -> Sha1State
    decreases m.len(),
{
    if m.len() < 64 {
        h
    } else {
        hash_blocks(compress(h, m.take(64)), m.skip(64))
    }
}

/// The initial hash value H(0).
pub open spec fn sha1_init_state() -> Sha1State {
    (0x67452301u32, 0xefcdab89u32, 0x98badcfeu32, 0x10325476u32, 0xc3d2e1f0u32)
}

pub open spec fn zero_bytes(n: nat) -> Seq<u8> {
    Seq::new(n, |i: int| 0u8)
}

/// The 8 big-endian bytes of `x`.
pub open spec fn be64_bytes(x: u64) -> Seq<u8> {
    Seq::new(8, |i: int| (x >> ((56 - 8 * i) as u64)) as u8)
}

/// Number of zero bytes that padding inserts after the 0x80 marker.
pub open spec fn pad_zeros(n: nat) -> nat {
    if n % 64 < 56 {
        (55 - n % 64) as nat
    } else {
        (119 - n % 64) as nat
    }
}

/// The padded message: m, 0x80, zeros, then the bit length as 64 big-endian bits.
pub open spec fn padded(m: Seq<u8>) -> Seq<u8> {
    m + seq![0x80u8] + zero_bytes(pad_zeros(m.len())) + be64_bytes((m.len() * 8) as u64)
}

pub open spec fn state_word(s: Sha1State, i: int) -> u32 {
    if i == 0 {
        s.0
    } else if i == 1 {
        s.1
    } else if i == 2 {
        s.2
    } else if i == 3 {
        s.3
    } else {
        s.4
    }
}

/// The 20 digest bytes: the five words, each big-endian.
pub open spec fn digest_bytes(s: Sha1State) -> Seq<u8> {
    Seq::new(20, |k: int| (state_word(s, k / 4) >> ((24 - 8 * (k % 4)) as u32)) as u8)
}

/// SHA-1 of a message.
pub open spec fn sha1(m: Seq<u8>) -> Seq<u8> {
    digest_bytes(hash_blocks(sha1_init_state(), padded(m)))
}

// ---------------------------------------------------------------------
// Lemmas
// ---------------------------------------------------------------------

/// Hashing a concatenation whose first part is whole blocks chains the two parts.
pub proof fn lemma_hash_blocks_append(h: Sha1State, a: Seq<u8>, b: Seq<u8>)
    requires
        a.len() % 64 == 0,
    ensures
        hash_blocks(h, a + b) == hash_blocks(hash_blocks(h, a), b),
    decreases a.len(),
{
    if a.len() == 0 {
        assert(a + b =~= b);
    } else {
        assert((a + b).take(64) =~= a.take(64));
        assert((a + b).skip(64) =~= a.skip(64) + b);
        lemma_hash_blocks_append(compress(h, a.take(64)), a.skip(64), b);
    }
}

/// Hashing exactly one block is one compression.
pub proof fn lemma_hash_one_block(h: Sha1State, b: Seq<u8>)
    requires
        b.len() == 64,
    ensures
        hash_blocks(h, b) == compress(h, b),
{
    assert(b.take(64) =~= b);
    assert(hash_blocks(compress(h, b), b.skip(64)) == compress(h, b));
}

/// Hashing the whole blocks of a message, then one more block.
proof fn lemma_hash_extend(h0: Sha1State, p: Seq<u8>, b: Seq<u8>)
    requires
        p.len() % 64 == 0,
        b.len() == 64,
    ensures
        hash_blocks(h0, p + b) == compress(hash_blocks(h0, p), b),
{
    lemma_hash_blocks_append(h0, p, b);
    lemma_hash_one_block(hash_blocks(h0, p), b);
}

/// What each byte of the padded message is.
pub proof fn lemma_padded_index(m: Seq<u8>, i: int)
    requires
        0 <= i < padded(m).len(),
    ensures
        padded(m).len() == m.len() + 1 + pad_zeros(m.len()) + 8,
        padded(m)[i] == (if i < m.len() {
            m[i]
        } else if i == m.len() {
            0x80u8
        } else if i < m.len() + 1 + pad_zeros(m.len()) {
            0u8
        } else {
            be64_bytes((m.len() * 8) as u64)[i - m.len() - 1 - pad_zeros(m.len())]
        }),
{
}

// ---------------------------------------------------------------------
// The incremental hasher
// ---------------------------------------------------------------------

/// SHA1 context structure
pub struct Sha1Context {
    h: [u32; 5],
    len: u64,
    block: [u8; 64],
    block_len: u8,
    absorbed: Ghost<Seq<u8>>,
}

pub open spec fn state_of(h: [u32; 5]) -> Sha1State {
    (h[0], h[1], h[2], h[3], h[4])
}

impl View for Sha1Context {
    type V = Seq<u8>;

    /// The bytes fed to the context since it was (re)initialised.
    closed spec fn view(&self) -> Seq<u8> {
        self.absorbed@
    }
}

impl Sha1Context {
    /// The context is ready to take more input: the chaining value covers the
    /// whole blocks of the input so far, and the buffer holds the rest.
    pub closed spec fn wf(&self) -> bool {
        &&& self.chain_ok()
        &&& self.len as int == self.absorbed@.len()
    }

    closed spec fn chain_ok(&self) -> bool {
        let m = self.absorbed@;
        let r = self.block_len as int;
        &&& r < 64
        &&& r == m.len() % 64
        &&& state_of(self.h) == hash_blocks(sha1_init_state(), m.take(m.len() - r))
        &&& self.block@.take(r) =~= m.skip(m.len() - r)
    }

    pub fn new() -> (ctx: Self)
        ensures
            ctx.wf(),
            ctx@ == Seq::<u8>::empty(),
    {
        let mut ctx = Sha1Context { h: [0; 5], len: 0, block: [0; 64], block_len: 0, absorbed: Ghost(Seq::empty()) };
        ctx.init();
        ctx
    }

    fn init(&mut self)
        ensures
            final(self).wf(),
            final(self)@ == Seq::<u8>::empty(),
    {
        self.h[0] = 0x67452301;
        self.h[1] = 0xefcdab89;
        self.h[2] = 0x98badcfe;
        self.h[3] = 0x10325476;
        self.h[4] = 0xc3d2e1f0;
        self.len = 0;
        self.block_len = 0;
        self.absorbed = Ghost(Seq::empty());
        proof {
            let m = self.absorbed@;
            assert(m.take(0) =~= Seq::<u8>::empty());
            assert(hash_blocks(sha1_init_state(), m.take(0)) == sha1_init_state());
        }
    }

    /// One application of the compression function to the buffered block.
    fn step(&mut self)
        ensures
            state_of(final(self).h) == compress(state_of(old(self).h), old(self).block@),
            final(self).block == old(self).block,
            final(self).block_len == old(self).block_len,
            final(self).len == old(self).len,
            final(self).absorbed == old(self).absorbed,
    {
        let ghost blk = self.block@;
        let mut w = [0u32; 80];
        let mut i: usize = 0;
        while i < 16
            invariant
                i <= 16,
                blk == self.block@,
                blk.len() == 64,
                forall|j: int| 0 <= j < i ==> w[j] == schedule(blk, j as nat),
            decreases 16 - i,
        {
            let off = i * 4;
            w[i] = ((self.block[off] as u32) << 24u32) | ((self.block[off + 1] as u32) << 16u32)
                | ((self.block[off + 2] as u32) << 8u32) | (self.block[off + 3] as u32);
            i = i + 1;
        }
        while i < 80
            invariant
                16 <= i <= 80,
                forall|j: int| 0 <= j < i ==> w[j] == schedule(blk, j as nat),
            decreases 80 - i,
        {
            let x = w[i - 3] ^ w[i - 8] ^ w[i - 14] ^ w[i - 16];
            w[i] = (x << 1u32) | (x >> 31u32);
            proof {
                assert(w[i as int] == schedule(blk, i as nat));
            }
            i = i + 1;
        }
        let mut a = self.h[0];
        let mut b = self.h[1];
        let mut c = self.h[2];
        let mut d = self.h[3];
        let mut e = self.h[4];
        let ghost h0 = state_of(self.h);
        let mut t: usize = 0;
        while t < 80
            invariant
                t <= 80,
                forall|j: int| 0 <= j < 80 ==> w[j] == schedule(blk, j as nat),
                (a, b, c, d, e) == rounds(h0, blk, t as nat),
            decreases 80 - t,
        {
            let f = round_f_exec(t, b, c, d);
            let k = round_k_exec(t);
            let temp = ((a << 5u32) | (a >> 27u32)).wrapping_add(f).wrapping_add(e).wrapping_add(
                k,
            ).wrapping_add(w[t]);
            e = d;
            d = c;
            c = (b << 30u32) | (b >> 2u32);
            b = a;
            a = temp;
            t = t + 1;
        }
        self.h[0] = self.h[0].wrapping_add(a);
        self.h[1] = self.h[1].wrapping_add(b);
        self.h[2] = self.h[2].wrapping_add(c);
        self.h[3] = self.h[3].wrapping_add(d);
        self.h[4] = self.h[4].wrapping_add(e);
    }
}

impl Sha1Context {
    /// Feeds `input` to the hasher.
    pub fn update(&mut self, input: &[u8])
        requires
            old(self).wf(),
            old(self)@.len() + input@.len() <= u64::MAX,
        ensures
            final(self).wf(),
            final(self)@ == old(self)@ + input@,
    {
        let ghost m0 = self.absorbed@;
        let mut input_len = input.len();
        let mut input_idx: usize = 0;

        self.len = self.len + input_len as u64;

        if self.block_len > 0 {
            let to_copy = self.fill_block(input);
            input_len = input_len - to_copy;
            input_idx = input_idx + to_copy;
        }
        while input_len >= 64
            invariant
                input_idx + input_len == input@.len(),
                input@.len() == input.len(),
                self.block_len == 0 || input_len == 0,
                self.chain_ok(),
                self.absorbed@ == m0 + input@.take(input_idx as int),
                self.len as int == m0.len() + input@.len(),
            decreases input_len,
        {
            self.absorb_block(input, input_idx);
            input_len = input_len - 64;
            input_idx = input_idx + 64;
            proof {
                assert(self.absorbed@ =~= m0 + input@.take(input_idx as int));
            }
        }
        if input_len > 0 {
            self.buffer_tail(input, input_idx);
        }
        assert(self.absorbed@ =~= m0 + input@);
    }

    /// Tops up a partly filled block from the front of `input`, compressing it
    /// when it becomes full.
    fn fill_block(&mut self, input: &[u8]) -> (taken: usize)
        requires
            old(self).chain_ok(),
            old(self).block_len > 0,
        ensures
            taken <= input@.len(),
            taken == input@.len() || final(self).block_len == 0,
            final(self).chain_ok(),
            final(self).absorbed@ == old(self).absorbed@ + input@.take(taken as int),
            final(self).len == old(self).len,
    {
        let ghost m0 = self.absorbed@;
        let input_len = input.len();
        let available = 64 - self.block_len as usize;
        let to_copy = if input_len < available { input_len } else { available };
        let start = self.block_len as usize;
        let mut j: usize = 0;
        while j < to_copy
            invariant
                j <= to_copy,
                start + to_copy <= 64,
                to_copy <= input@.len(),
                start == self.block_len as usize,
                self.block_len == old(self).block_len,
                self.h == old(self).h,
                self.len == old(self).len,
                self.absorbed == old(self).absorbed,
                forall|k: int| 0 <= k < start ==> self.block@[k] == old(self).block@[k],
                forall|k: int| 0 <= k < j ==> self.block@[start + k] == input@[k],
            decreases to_copy - j,
        {
            self.block[start + j] = input[j];
            j = j + 1;
        }
        self.block_len = self.block_len + to_copy as u8;
        self.absorbed = Ghost(m0 + input@.take(to_copy as int));
        proof {
            let m = self.absorbed@;
            let r0 = start as int;
            let bl = self.block_len as int;
            assert(m.take(m.len() - bl) =~= m0.take(m0.len() - r0));
            assert forall|k: int| 0 <= k < bl implies #[trigger] self.block@[k] == m.skip(
                m.len() - bl,
            )[k] by {
                if k < r0 {
                    assert(old(self).block@.take(r0)[k] == m0.skip(m0.len() - r0)[k]);
                } else {
                    assert(input@.take(to_copy as int)[k - r0] == input@[k - r0]);
                }
            }
            assert(self.block@.take(bl) =~= m.skip(m.len() - bl));
        }
        if self.block_len == 64 {
            proof {
                let m = self.absorbed@;
                let p = m.take(m.len() - 64);
                assert(self.block@.take(64) =~= self.block@);
                assert(p + self.block@ =~= m);
                lemma_hash_extend(sha1_init_state(), p, self.block@);
            }
            self.step();
            self.block_len = 0;
            proof {
                let m = self.absorbed@;
                assert(m.take(m.len() as int) =~= m);
                assert(self.block@.take(0) =~= m.skip(m.len() as int));
            }
        }
        to_copy
    }

    /// Compresses the 64 bytes of `input` starting at `idx`.
    fn absorb_block(&mut self, input: &[u8], idx: usize)
        requires
            old(self).chain_ok(),
            old(self).block_len == 0,
            idx + 64 <= input@.len(),
        ensures
            final(self).chain_ok(),
            final(self).block_len == 0,
            final(self).absorbed@ == old(self).absorbed@ + input@.subrange(idx as int, idx + 64),
            final(self).len == old(self).len,
    {
        let ghost m = self.absorbed@;
        proof {
            assert(m.take(m.len() as int) =~= m);
        }
        let mut k: usize = 0;
        while k < 64
            invariant
                k <= 64,
                idx + 64 <= input@.len(),
                input@.len() == input.len(),
                forall|q: int| 0 <= q < k ==> self.block@[q] == input@[idx + q],
                self.h == old(self).h,
                self.block_len == 0,
                self.len == old(self).len,
                self.absorbed == old(self).absorbed,
            decreases 64 - k,
        {
            self.block[k] = input[idx + k];
            k = k + 1;
        }
        proof {
            assert(self.block@ =~= input@.subrange(idx as int, idx + 64));
            lemma_hash_extend(sha1_init_state(), m, self.block@);
        }
        self.step();
        self.absorbed = Ghost(m + input@.subrange(idx as int, idx + 64));
        proof {
            let m1 = self.absorbed@;
            assert(m1.take(m1.len() as int) =~= m1);
            assert(self.block@.take(0) =~= m1.skip(m1.len() as int));
        }
    }

    /// Buffers the fewer than 64 remaining bytes of `input` from `idx` on.
    fn buffer_tail(&mut self, input: &[u8], idx: usize)
        requires
            old(self).chain_ok(),
            old(self).block_len == 0,
            idx <= input@.len() < idx + 64,
        ensures
            final(self).chain_ok(),
            final(self).absorbed@ == old(self).absorbed@ + input@.skip(idx as int),
            final(self).len == old(self).len,
    {
        let ghost m = self.absorbed@;
        proof {
            assert(m.take(m.len() as int) =~= m);
        }
        let n = input.len() - idx;
        let mut k: usize = 0;
        while k < n
            invariant
                k <= n < 64,
                idx + n == input@.len(),
                input@.len() == input.len(),
                forall|q: int| 0 <= q < k ==> self.block@[q] == input@[idx + q],
                self.h == old(self).h,
                self.block_len == 0,
                self.len == old(self).len,
                self.absorbed == old(self).absorbed,
            decreases n - k,
        {
            self.block[k] = input[idx + k];
            k = k + 1;
        }
        self.block_len = n as u8;
        self.absorbed = Ghost(m + input@.skip(idx as int));
        proof {
            let m1 = self.absorbed@;
            assert(m1.take(m1.len() - n) =~= m);
            assert(self.block@.take(n as int) =~= m1.skip(m1.len() - n));
        }
    }
}

impl Sha1Context {
    /// Pads the input, compresses the last block(s) and returns the digest of
    /// everything fed since initialisation.  The context must be
    /// re-initialised before it is fed again.
    pub fn finalize(&mut self) -> (result: [u8; 20])
        requires
            old(self).wf(),
            old(self)@.len() * 8 <= u64::MAX,
        ensures
            result@ == sha1(old(self)@),
            final(self)@ == old(self)@,
    {
        let ghost m = self.absorbed@;
        let ghost n = m.len();
        let ghost r = self.block_len as int;
        let ghost pm = padded(m);
        let ghost z = pad_zeros(n);
        let mut result = [0u8; 20];
        let bit_len = self.len * 8;

        proof {
            assert(pm.len() == n + 1 + z + 8);
            assert forall|k: int| 0 <= k < r implies #[trigger] self.block@[k] == pm[n - r + k] by {
                assert(self.block@.take(r)[k] == m.skip(n - r)[k]);
                lemma_padded_index(m, n - r + k);
            }
            lemma_padded_index(m, n as int);
        }
        // Padding
        self.block[self.block_len as usize] = 0x80;
        self.block_len = self.block_len + 1;
        let ghost mut done: Seq<u8> = m.take(n - r);
        proof {
            assert(pm.take(n - r) =~= done);
        }

        if self.block_len > 56 {
            let mut k = self.block_len as usize;
            while k < 64
                invariant
                    57 <= r + 1 <= k <= 64,
                    r < 64,
                    z == 119 - r,
                    pm.len() == n + 1 + z + 8,
                    pm == padded(m),
                    m.len() == n,
                    forall|q: int| 0 <= q < k ==> #[trigger] self.block@[q] == pm[n - r + q],
                    self.h == old(self).h,
                    self.len == old(self).len,
                    self.absorbed == old(self).absorbed,
                decreases 64 - k,
            {
                self.block[k] = 0;
                proof {
                    lemma_padded_index(m, n - r + k);
                }
                k = k + 1;
            }
            proof {
                assert(self.block@ =~= pm.subrange(n - r, n - r + 64));
                lemma_hash_extend(sha1_init_state(), done, self.block@);
                assert(done + self.block@ =~= pm.take(n - r + 64));
            }
            self.step();
            self.block_len = 0;
            proof {
                done = pm.take(n - r + 64);
            }
        }
        let ghost base = done.len() as int;
        proof {
            assert(base == n - r || base == n - r + 64);
            assert(base + 64 == pm.len());
            assert forall|q: int| 0 <= q < self.block_len implies #[trigger] self.block@[q] == pm[base + q] by {
            }
        }
        let mut k = self.block_len as usize;
        while k < 56
            invariant
                self.block_len as int <= k <= 56,
                base + 64 == pm.len(),
                base + self.block_len >= n + 1,
                m.len() == n,
                z == pad_zeros(n),
                pm.len() == n + 1 + z + 8,
                pm == padded(m),
                forall|q: int| 0 <= q < k ==> #[trigger] self.block@[q] == pm[base + q],
                state_of(self.h) == hash_blocks(sha1_init_state(), done),
                done.len() == base,
                done == pm.take(base),
                self.len == old(self).len,
                self.absorbed == old(self).absorbed,
            decreases 56 - k,
        {
            self.block[k] = 0;
            proof {
                lemma_padded_index(m, base + k);
            }
            k = k + 1;
        }
        let mut i: usize = 0;
        while i < 8
            invariant
                i <= 8,
                base + 64 == pm.len(),
                pm.len() == n + 1 + z + 8,
                pm == padded(m),
                bit_len == (n * 8) as u64,
                m.len() == n,
                z == pad_zeros(n),
                forall|q: int| 0 <= q < 56 + i ==> #[trigger] self.block@[q] == pm[base + q],
                state_of(self.h) == hash_blocks(sha1_init_state(), done),
                done.len() == base,
                done == pm.take(base),
                self.len == old(self).len,
                self.absorbed == old(self).absorbed,
            decreases 8 - i,
        {
            let sh: u64 = 56 - 8 * (i as u64);
            self.block[56 + i] = (bit_len >> sh) as u8;
            proof {
                lemma_padded_index(m, base + 56 + i);
            }
            i = i + 1;
        }
        proof {
            assert(self.block@ =~= pm.subrange(base, base + 64));
            lemma_hash_extend(sha1_init_state(), done, self.block@);
            assert(done + self.block@ =~= pm);
        }
        self.step();
        let ghost fin = state_of(self.h);
        let mut k: usize = 0;
        while k < 20
            invariant
                k <= 20,
                fin == state_of(self.h),
                forall|q: int| 0 <= q < k ==> #[trigger] result@[q] == digest_bytes(fin)[q],
            decreases 20 - k,
        {
            let word = self.h[k / 4];
            let sh: u32 = 24 - 8 * ((k % 4) as u32);
            result[k] = (word >> sh) as u8;
            proof {
                assert(state_word(fin, k as int / 4) == word);
            }
            k = k + 1;
        }
        proof {
            assert(result@ =~= digest_bytes(fin));
        }
        result
    }
}

/// OpenSSL-compatible interface over [`Sha1Context`].
#[allow(non_camel_case_types)]
pub struct SHA_CTX(Sha1Context);

impl View for SHA_CTX {
    type V = Seq<u8>;

    closed spec fn view(&self) -> Seq<u8> {
        self.0@
    }
}

impl SHA_CTX {
    pub closed spec fn wf(&self) -> bool {
        self.0.wf()
    }

    pub fn new() -> (ctx: Self)
        ensures
            ctx.wf(),
            ctx@ == Seq::<u8>::empty(),
    {
        SHA_CTX(Sha1Context::new())
    }

    /// Restarts the hash: whatever was fed before is forgotten.
    pub fn init(&mut self)
        ensures
            final(self).wf(),
            final(self)@ == Seq::<u8>::empty(),
    {
        self.0.init();
    }

    pub fn update(&mut self, data: &[u8])
        requires
            old(self).wf(),
            old(self)@.len() + data@.len() <= u64::MAX,
        ensures
            final(self).wf(),
            final(self)@ == old(self)@ + data@,
    {
        self.0.update(data);
    }

    /// Writes the digest of everything fed since initialisation to `output`.
    pub fn finish(&mut self, output: &mut [u8; SHA_DIGEST_LENGTH])
        requires
            old(self).wf(),
            old(self)@.len() * 8 <= u64::MAX,
        ensures
            final(output)@ == sha1(old(self)@),
            final(self)@ == old(self)@,
    {
        *output = self.0.finalize();
    }
}

fn round_f_exec(t: usize, b: u32, c: u32, d: u32) -> (r: u32)
    ensures
        r == round_f(t as int, b, c, d),
{
    if t < 20 {
        (b & c) | (!b & d)
    } else if t < 40 {
        b ^ c ^ d
    } else if t < 60 {
        (b & c) | (b & d) | (c & d)
    } else {
        b ^ c ^ d
    }
}

fn round_k_exec(t: usize) -> (r: u32)
    ensures
        r == round_k(t as int),
{
    if t < 20 {
        0x5a827999
    } else if t < 40 {
        0x6ed9eba1
    } else if t < 60 {
        0x8f1bbcdc
    } else {
        0xca62c1d6
    }
}


/// The digest does not depend on how the input was cut into `update` calls:
/// feeding `a` then `b` leaves the same bytes to hash as feeding `a + b`.
pub proof fn law_digest_independent_of_chunking(prev: Seq<u8>, a: Seq<u8>, b: Seq<u8>)
    ensures
        (prev + a) + b == prev + (a + b),
        sha1((prev + a) + b) == sha1(prev + (a + b)),
{
    assert((prev + a) + b =~= prev + (a + b));
}

} // verus!
