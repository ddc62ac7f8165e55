//! The RIPEMD-160 hash: a Merkle–Damgård construction over a 5-word state,
//! with a compression function of two parallel 80-round pipelines.

use vstd::prelude::*;
use vstd::arithmetic::div_mod::lemma_mod_multiples_vanish;
use crate::words::{le32, le32_seq, rotl32, rotl32_x, load32, push32_le};
use crate::buffer::{BlockBuffer, md_pad_seq, lemma_md_zero_count_mod};
use crate::ripemd_tables::{rl_word, rl_word_x, rr_word, rr_word_x, rl_rot, rl_rot_x, rr_rot,
    rr_rot_x};

verus! {

/// The five initial chaining words.
pub open spec fn rmd_init() -> Seq<u32> {
    seq![0x67452301u32, 0xefcdab89u32, 0x98badcfeu32, 0x10325476u32, 0xc3d2e1f0u32]
}

/// Nonlinear mixing function of round group `j / 16`.
pub open spec fn rmd_f(j: int, x: u32, y: u32, z: u32) -> u32 {
    if j < 16 {
        x ^ y ^ z
    } else if j < 32 {
        (x & y) | ((!x) & z)
    } else if j < 48 {
        (x | (!y)) ^ z
    } else if j < 64 {
        (x & z) | (y & (!z))
    } else {
        x ^ (y | (!z))
    }
}

fn rmd_f_x(j: usize, x: u32, y: u32, z: u32) -> (r: u32)
    requires
        j < 80,
    ensures
        r == rmd_f(j as int, x, y, z),
{
    if j < 16 {
        x ^ y ^ z
    } else if j < 32 {
        (x & y) | ((!x) & z)
    } else if j < 48 {
        (x | (!y)) ^ z
    } else if j < 64 {
        (x & z) | (y & (!z))
    } else {
        x ^ (y | (!z))
    }
}

/// Additive round constant of the left line.
pub open spec fn rmd_kl(j: int) -> u32 {
    if j < 16 {
        0
    } else if j < 32 {
        0x5a827999
    } else if j < 48 {
        0x6ed9eba1
    } else if j < 64 {
        0x8f1bbcdc
    } else {
        0xa953fd4e
    }
}

fn rmd_kl_x(j: usize) -> (r: u32)
    requires
        j < 80,
    ensures
        r == rmd_kl(j as int),
{
    if j < 16 {
        0
    } else if j < 32 {
        0x5a827999
    } else if j < 48 {
        0x6ed9eba1
    } else if j < 64 {
        0x8f1bbcdc
    } else {
        0xa953fd4e
    }
}

/// Additive round constant of the right line.
pub open spec fn rmd_kr(j: int) -> u32 {
    if j < 16 {
        0x50a28be6
    } else if j < 32 {
        0x5c4dd124
    } else if j < 48 {
        0x6d703ef3
    } else if j < 64 {
        0x7a6d76e9
    } else {
        0
    }
}

fn rmd_kr_x(j: usize) -> (r: u32)
    requires
        j < 80,
    ensures
        r == rmd_kr(j as int),
{
    if j < 16 {
        0x50a28be6
    } else if j < 32 {
        0x5c4dd124
    } else if j < 48 {
        0x6d703ef3
    } else if j < 64 {
        0x7a6d76e9
    } else {
        0
    }
}

/// One round of one pipeline over the working tuple `(a, b, c, d, e)`.
/// The right line uses the mixing functions in reverse group order.
pub open spec fn rmd_step(left: bool, j: int, v: (u32, u32, u32, u32, u32), x: Seq<u32>) -> (
    u32,
    u32,
    u32,
    u32,
    u32,
)
    recommends
        0 <= j < 80,
        x.len() == 16,
{
    let f = if left {
        rmd_f(j, v.1, v.2, v.3)
    } else {
        rmd_f(79 - j, v.1, v.2, v.3)
    };
    let w = if left {
        x[rl_word(j)]
    } else {
        x[rr_word(j)]
    };
    let k = if left {
        rmd_kl(j)
    } else {
        rmd_kr(j)
    };
    let s = if left {
        rl_rot(j)
    } else {
        rr_rot(j)
    };
    let t = rotl32(v.0.wrapping_add(f).wrapping_add(w).wrapping_add(k), s).wrapping_add(v.4);
    (v.4, t, v.1, rotl32(v.2, 10), v.3)
}

/// One pipeline after `n` rounds, started from the chaining state `h`.
pub open spec fn rmd_line(left: bool, n: int, h: Seq<u32>, x: Seq<u32>) -> (u32, u32, u32, u32, u32)
    recommends
        0 <= n <= 80,
        h.len() == 5,
        x.len() == 16,
    decreases n,
{
    if n <= 0 {
        (h[0], h[1], h[2], h[3], h[4])
    } else {
        rmd_step(left, n - 1, rmd_line(left, n - 1, h, x), x)
    }
}

/// The RIPEMD-160 compression function: both pipelines over one 64-byte
/// block read as sixteen little-endian words, then the cross-addition that
/// combines the two results with the incoming state.
pub open spec fn rmd_compress(h: Seq<u32>, block: Seq<u8>) -> Seq<u32>
    recommends
        h.len() == 5,
        block.len() == 64,
{
    let x = Seq::new(16, |i: int| le32(block, 4 * i));
    let l = rmd_line(true, 80, h, x);
    let r = rmd_line(false, 80, h, x);
    seq![
        h[1].wrapping_add(l.2).wrapping_add(r.3),
        h[2].wrapping_add(l.3).wrapping_add(r.4),
        h[3].wrapping_add(l.4).wrapping_add(r.0),
        h[4].wrapping_add(l.0).wrapping_add(r.1),
        h[0].wrapping_add(l.1).wrapping_add(r.2),
    ]
}

#[verifier::loop_isolation(false)]
fn rmd_line_x(left: bool, h: &Vec<u32>, x: &Vec<u32>) -> (r: (u32, u32, u32, u32, u32))
    requires
        h@.len() == 5,
        x@.len() == 16,
    ensures
        r == rmd_line(left, 80, h@, x@),
{
    let mut a = h[0];
    let mut b = h[1];
    let mut c = h[2];
    let mut d = h[3];
    let mut e = h[4];
    let mut j: usize = 0;
    while j < 80
        invariant
            j <= 80,
            (a, b, c, d, e) == rmd_line(left, j as int, h@, x@),
        decreases 80 - j,
    {
        let f = if left {
            rmd_f_x(j, b, c, d)
        } else {
            rmd_f_x(79 - j, b, c, d)
        };
        let wi = if left {
            rl_word_x(j)
        } else {
            rr_word_x(j)
        };
        let w = x[wi];
        let k = if left {
            rmd_kl_x(j)
        } else {
            rmd_kr_x(j)
        };
        let s = if left {
            rl_rot_x(j)
        } else {
            rr_rot_x(j)
        };
        let t = rotl32_x(a.wrapping_add(f).wrapping_add(w).wrapping_add(k), s as u32).wrapping_add(
            e,
        );
        let na = e;
        let nc = b;
        let nd = rotl32_x(c, 10);
        let ne = d;
        a = na;
        b = t;
        c = nc;
        d = nd;
        e = ne;
        j = j + 1;
    }
    (a, b, c, d, e)
}

/// Runs the compression function on one block, returning the new state.
#[verifier::loop_isolation(false)]
pub fn rmd_compress_x(h: &Vec<u32>, block: &Vec<u8>) -> (nh: Vec<u32>)
    requires
        h@.len() == 5,
        block@.len() == 64,
    ensures
        nh@ == rmd_compress(h@, block@),
        nh@.len() == 5,
{
    let mut x: Vec<u32> = Vec::new();
    let mut i: usize = 0;
    while i < 16
        invariant
            i <= 16,
            x@.len() == i as int,
            forall|k: int| 0 <= k < i ==> x@[k] == le32(block@, 4 * k),
        decreases 16 - i,
    {
        x.push(load32(block, 4 * i));
        i += 1;
    }
    proof {
        assert(x@ =~= Seq::new(16, |i: int| le32(block@, 4 * i)));
    }
    let l = rmd_line_x(true, h, &x);
    let r = rmd_line_x(false, h, &x);
    let mut nh: Vec<u32> = Vec::new();
    nh.push(h[1].wrapping_add(l.2).wrapping_add(r.3));
    nh.push(h[2].wrapping_add(l.3).wrapping_add(r.4));
    nh.push(h[3].wrapping_add(l.4).wrapping_add(r.0));
    nh.push(h[4].wrapping_add(l.0).wrapping_add(r.1));
    nh.push(h[0].wrapping_add(l.1).wrapping_add(r.2));
    proof {
        assert(nh@ =~= rmd_compress(h@, block@));
    }
    nh
}

/// The chaining state after compressing every 64-byte block of `m` in order.
pub open spec fn rmd_fold(h: Seq<u32>, m: Seq<u8>) -> Seq<u32>
    recommends
        m.len() % 64 == 0,
    decreases m.len(),
{
    if m.len() < 64 {
        h
    } else {
        rmd_fold(rmd_compress(h, m.take(64)), m.skip(64))
    }
}

/// Folding one more block equals compressing it after folding the rest.
pub proof fn lemma_rmd_fold_snoc(h: Seq<u32>, m: Seq<u8>, b: Seq<u8>)
    requires
        m.len() % 64 == 0,
        b.len() == 64,
    ensures
        rmd_fold(h, m + b) == rmd_compress(rmd_fold(h, m), b),
    decreases m.len(),
{
    reveal_with_fuel(rmd_fold, 3);
    if m.len() == 0 {
        assert(m + b =~= b);
        assert(b.take(64) =~= b);
        assert(b.skip(64) =~= Seq::<u8>::empty());
    } else {
        assert((m + b).take(64) =~= m.take(64));
        assert((m + b).skip(64) =~= m.skip(64) + b);
        lemma_mod_multiples_vanish(-1, m.len() as int, 64);
        lemma_rmd_fold_snoc(rmd_compress(h, m.take(64)), m.skip(64), b);
    }
}

/// The RIPEMD-160 digest of a whole message: fold the padded message from
/// the initial state and serialize the five words little-endian.
pub open spec fn rmd160_hash(m: Seq<u8>) -> Seq<u8>
    recommends
        m.len() < 0x2000000000000000,
{
    let h = rmd_fold(rmd_init(), m + md_pad_seq(m.len(), (m.len() * 8) as u64));
    le32_seq(h[0]) + le32_seq(h[1]) + le32_seq(h[2]) + le32_seq(h[3]) + le32_seq(h[4])
}

/// Streaming RIPEMD-160 hasher. Its view is the sequence of message bytes
/// fed since construction or the last finalization.
pub struct Ripemd160 {
    h: Vec<u32>,
    len: u64,
    buffer: BlockBuffer,
    msg: Ghost<Seq<u8>>,
}

impl View for Ripemd160 {
    type V = Seq<u8>;

    closed spec fn view(&self) -> Seq<u8> {
        self.msg@
    }
}

impl Ripemd160 {
    pub closed spec fn wf(&self) -> bool {
        let n = self.msg@.len() as int;
        let t = self.buffer.bytes().len() as int;
        &&& self.h@.len() == 5
        &&& self.buffer.inv()
        &&& self.buffer.capacity() == 64
        &&& t < 64
        &&& t <= n
        &&& (n - t) % 64 == 0
        &&& self.buffer.bytes() == self.msg@.skip(n - t)
        &&& self.h@ == rmd_fold(rmd_init(), self.msg@.take(n - t))
        &&& n < 0x2000000000000000
        &&& self.len == n
    }

    pub fn new() -> (r: Ripemd160)
        ensures
            r.wf(),
            r@ == Seq::<u8>::empty(),
    {
        let mut h: Vec<u32> = Vec::new();
        h.push(0x67452301u32);
        h.push(0xefcdab89u32);
        h.push(0x98badcfeu32);
        h.push(0x10325476u32);
        h.push(0xc3d2e1f0u32);
        let r = Ripemd160 { h, len: 0, buffer: BlockBuffer::new(64), msg: Ghost(Seq::empty()) };
        proof {
            assert(r.h@ =~= rmd_init());
            assert(r.msg@.take(0) =~= Seq::<u8>::empty());
            assert(r.msg@.skip(0) =~= Seq::<u8>::empty());
        }
        r
    }

    /// Feeds more message bytes; the message hashed is the concatenation of
    /// every slice fed so far.
    #[verifier::loop_isolation(false)]
    #[verifier::rlimit(60)]
    pub fn process(&mut self, input: &[u8])
        requires
            old(self).wf(),
            old(self)@.len() + input@.len() < 0x2000000000000000,
        ensures
            final(self).wf(),
            final(self)@ == old(self)@ + input@,
    {
        let ghost m0 = self.msg@;
        let mut i: usize = 0;
        while i < input.len()
            invariant
                i <= input@.len(),
                self.wf(),
                self.msg@ == m0 + input@.subrange(0, i as int),
            decreases input@.len() - i,
        {
            let ghost before = self.msg@;
            let ghost tfull = before.len() - self.buffer.bytes().len();
            let n = self.buffer.fill(input, i);
            self.len = self.len + (n as u64);
            self.msg = Ghost(self.msg@ + input@.subrange(i as int, i as int + n as int));
            proof {
                assert(self.msg@.skip(tfull) =~= before.skip(tfull) + input@.subrange(
                    i as int,
                    i as int + n as int,
                ));
                assert(self.msg@.take(tfull) =~= before.take(tfull));
                assert(self.msg@ =~= m0 + input@.subrange(0, i as int + n as int));
            }
            if self.buffer.is_full() {
                let b = self.buffer.take_full();
                let ghost l = self.msg@.len() as int;
                proof {
                    assert(b@ =~= self.msg@.skip(l - 64));
                    lemma_rmd_fold_snoc(rmd_init(), self.msg@.take(l - 64), b@);
                    assert(self.msg@.take(l - 64) + b@ =~= self.msg@);
                    assert(self.msg@.take(l) =~= self.msg@);
                    assert(self.msg@.skip(l) =~= Seq::<u8>::empty());
                }
                let nh = rmd_compress_x(&self.h, &b);
                self.h = nh;
            }
            i = i + n;
        }
        proof {
            assert(input@.subrange(0, input@.len() as int) =~= input@);
        }
    }

    /// Produces the 20-byte digest of everything fed so far, and resets the
    /// hasher to its initial state so it can hash a fresh message.
    #[verifier::rlimit(60)]
    pub fn fixed_result(&mut self) -> (digest: Vec<u8>)
        requires
            old(self).wf(),
        ensures
            digest@ == rmd160_hash(old(self)@),
            digest@.len() == 20,
            final(self).wf(),
            final(self)@ == Seq::<u8>::empty(),
    {
        let ghost m = self.msg@;
        let ghost l = m.len() as int;
        let ghost tail = self.buffer.bytes();
        let ghost t = tail.len() as int;
        let bitlen: u64 = self.len * 8;
        let (b1, b2o) = self.buffer.md_pad(bitlen);
        proof {
            lemma_md_zero_count_mod((t as nat), m.len());
            assert(md_pad_seq(t as nat, bitlen) == md_pad_seq(m.len(), bitlen));
        }
        let ghost pad = md_pad_seq(m.len(), bitlen);
        let ghost full = m.take(l - t);
        proof {
            assert(full + tail =~= m);
        }
        let nh = rmd_compress_x(&self.h, &b1);
        self.h = nh;
        match &b2o {
            Some(b2) => {
                proof {
                    lemma_rmd_fold_snoc(rmd_init(), full, b1@);
                    lemma_rmd_fold_snoc(rmd_init(), full + b1@, b2@);
                    assert(b1@ + b2@ == tail + pad);
                    assert((full + b1@) + b2@ =~= full + (tail + pad));
                    assert(full + (tail + pad) =~= (full + tail) + pad);
                    assert((full + b1@) + b2@ == m + pad);
                }
                let nh2 = rmd_compress_x(&self.h, b2);
                self.h = nh2;
            },
            None => {
                proof {
                    lemma_rmd_fold_snoc(rmd_init(), full, b1@);
                    assert(b1@ == tail + pad);
                    assert(full + (tail + pad) =~= (full + tail) + pad);
                    assert(full + b1@ == m + pad);
                }
            },
        }
        let mut out: Vec<u8> = Vec::new();
        push32_le(&mut out, self.h[0]);
        push32_le(&mut out, self.h[1]);
        push32_le(&mut out, self.h[2]);
        push32_le(&mut out, self.h[3]);
        push32_le(&mut out, self.h[4]);
        proof {
            assert(out@ =~= rmd160_hash(m));
        }
        let mut h2: Vec<u32> = Vec::new();
        h2.push(0x67452301u32);
        h2.push(0xefcdab89u32);
        h2.push(0x98badcfeu32);
        h2.push(0x10325476u32);
        h2.push(0xc3d2e1f0u32);
        self.h = h2;
        self.len = 0;
        self.msg = Ghost(Seq::empty());
        proof {
            assert(self.h@ =~= rmd_init());
            assert(self.msg@.take(0) =~= Seq::<u8>::empty());
            assert(self.msg@.skip(0) =~= Seq::<u8>::empty());
        }
        out
    }
}

impl Default for Ripemd160 {
    /// A fresh hasher in the published initial state.
    fn default() -> (r: Ripemd160)
        ensures
            r.wf(),
            r@ == Seq::<u8>::empty(),
    {
        Ripemd160::new()
    }
}

} // verus!
