//! Fixed-capacity byte accumulator shared by both hash constructions.
//!
//! Callers feed bytes with [`BlockBuffer::fill`] and drain full blocks with
//! [`BlockBuffer::take_full`]. At end of message either the Merkle–Damgård
//! length padding ([`BlockBuffer::md_pad`], 64-byte blocks) or the sponge
//! `pad10*1` padding with a domain suffix ([`BlockBuffer::sponge_pad`])
//! empties the buffer, always completing the stream to a whole number of
//! blocks.

use vstd::prelude::*;
use vstd::arithmetic::div_mod::{lemma_fundamental_div_mod, lemma_mod_multiples_vanish,
    lemma_small_mod};
use crate::words::{le64_seq, push64_le};

verus! {

/// `n` zero bytes.
pub open spec fn zeros(n: nat) -> Seq<u8> {
    Seq::new(n, |i: int| 0u8)
}

/// Number of zero bytes the Merkle–Damgård padding inserts between the
/// `0x80` marker and the 8-byte length field, for a message of `len` bytes
/// and 64-byte blocks.
pub open spec fn md_zero_count(len: nat) -> nat {
    (((64 - ((len + 9) % 64)) % 64)) as nat
}

/// The Merkle–Damgård padding for a message of `len` bytes whose bit length
/// is `bitlen`: the byte `0x80`, zero fill, then `bitlen` little-endian.
pub open spec fn md_pad_seq(len: nat, bitlen: u64) -> Seq<u8> {
    seq![0x80u8] + zeros(md_zero_count(len)) + le64_seq(bitlen)
}

/// The sponge `pad10*1` padding with domain `suffix` for a buffer holding
/// `len` bytes out of a `cap`-byte block: the suffix byte, zero fill, and
/// `0x80` merged into the last byte of the block.
pub open spec fn sponge_pad_seq(len: nat, cap: nat, suffix: u8) -> Seq<u8>
    recommends
        len < cap,
{
    if len + 1 == cap {
        seq![(suffix | 0x80u8)]
    } else {
        seq![suffix] + zeros((cap - len - 2) as nat) + seq![0x80u8]
    }
}

/// Appending the Merkle–Damgård padding always completes the stream to a
/// whole number of 64-byte blocks, and never adds more than two blocks.
pub proof fn lemma_md_pad_multiple(len: nat, bitlen: u64)
    ensures
        (len + md_pad_seq(len, bitlen).len()) % 64 == 0,
        9 <= md_pad_seq(len, bitlen).len() <= 72,
{
    let r = (len + 9) % 64;
    lemma_fundamental_div_mod((len + 9) as int, 64);
    let q = (len + 9) as int / 64;
    if r == 0 {
        lemma_small_mod(0, 64);
        assert(md_zero_count(len) == 0);
        lemma_mod_multiples_vanish(q, 0, 64);
    } else {
        lemma_small_mod((64 - r) as nat, 64);
        assert(md_zero_count(len) == 64 - r);
        assert(len + 9 + (64 - r) == 64 * (q + 1));
        lemma_mod_multiples_vanish(q + 1, 0, 64);
        lemma_small_mod(0, 64);
    }
}

/// The zero count only depends on the message length modulo the block size,
/// so padding the buffered tail pads the whole message.
pub proof fn lemma_md_zero_count_mod(t: nat, l: nat)
    requires
        t <= l,
        (l - t) % 64 == 0,
    ensures
        md_zero_count(t) == md_zero_count(l),
{
    let full = (l - t) as int;
    lemma_fundamental_div_mod(full, 64);
    lemma_mod_multiples_vanish(full / 64, (t + 9) as int, 64);
}

/// Appending the sponge padding always completes the current block exactly.
pub proof fn lemma_sponge_pad_complete(len: nat, cap: nat, suffix: u8)
    requires
        len < cap,
    ensures
        len + sponge_pad_seq(len, cap, suffix).len() == cap,
{
}

/// A byte accumulator of fixed block capacity. It holds at most one block;
/// everything beyond a full block is handed back to the caller.
pub struct BlockBuffer {
    data: Vec<u8>,
    cap: usize,
}

impl BlockBuffer {
    /// The bytes currently buffered.
    pub closed spec fn bytes(&self) -> Seq<u8> {
        self.data@
    }

    /// The block size in bytes.
    pub closed spec fn capacity(&self) -> int {
        self.cap as int
    }

    pub closed spec fn inv(&self) -> bool {
        &&& self.data@.len() <= self.cap
        &&& 1 <= self.cap
    }

    pub fn new(cap: usize) -> (b: BlockBuffer)
        requires
            1 <= cap,
        ensures
            b.inv(),
            b.bytes() == Seq::<u8>::empty(),
            b.capacity() == cap,
    {
        let b = BlockBuffer { data: Vec::new(), cap };
        proof {
            assert(b.bytes() =~= Seq::<u8>::empty());
        }
        b
    }

    pub fn len(&self) -> (n: usize)
        ensures
            n == self.bytes().len(),
    {
        self.data.len()
    }

    pub fn is_full(&self) -> (b: bool)
        ensures
            b == (self.bytes().len() == self.capacity()),
    {
        self.data.len() == self.cap
    }

    /// Copies bytes of `data` starting at `from` into the buffer until the
    /// buffer is full or `data` is exhausted; returns how many were taken.
    #[verifier::loop_isolation(false)]
    pub fn fill(&mut self, data: &[u8], from: usize) -> (n: usize)
        requires
            old(self).inv(),
            old(self).bytes().len() < old(self).capacity(),
            from <= data@.len(),
        ensures
            final(self).inv(),
            final(self).capacity() == old(self).capacity(),
            n as int == if old(self).capacity() - old(self).bytes().len() <= data@.len() - from {
                old(self).capacity() - old(self).bytes().len()
            } else {
                data@.len() - from
            },
            final(self).bytes() == old(self).bytes() + data@.subrange(
                from as int,
                from as int + n as int,
            ),
    {
        let avail = data.len() - from;
        let space = self.cap - self.data.len();
        let n = if space <= avail {
            space
        } else {
            avail
        };
        let chunk = vstd::slice::slice_subrange(data, from, from + n);
        self.data.extend_from_slice(chunk);
        proof {
            assert(self.data@ =~= old(self).bytes() + data@.subrange(
                from as int,
                from as int + n as int,
            ));
        }
        n
    }

    /// Removes and returns the buffered block; the buffer must be full.
    #[verifier::loop_isolation(false)]
    pub fn take_full(&mut self) -> (b: Vec<u8>)
        requires
            old(self).inv(),
            old(self).bytes().len() == old(self).capacity(),
        ensures
            final(self).inv(),
            final(self).capacity() == old(self).capacity(),
            final(self).bytes() == Seq::<u8>::empty(),
            b@ == old(self).bytes(),
    {
        let mut b: Vec<u8> = Vec::new();
        let mut k: usize = 0;
        let n = self.data.len();
        let ghost orig = self.data@;
        while k < n
            invariant
                k <= n,
                n == self.data@.len(),
                b@ == self.data@.subrange(0, k as int),
                self.data@ == orig,
            decreases n - k,
        {
            b.push(self.data[k]);
            k += 1;
            proof {
                assert(b@ =~= self.data@.subrange(0, k as int));
            }
        }
        self.data.clear();
        proof {
            assert(b@ =~= old(self).bytes());
            assert(self.bytes() =~= Seq::<u8>::empty());
        }
        b
    }

    /// Merkle–Damgård length padding for 64-byte blocks: appends `0x80`,
    /// zero fill, and the 8-byte little-endian bit length, then returns the
    /// resulting one or two full blocks. The buffer is left empty.
    #[verifier::loop_isolation(false)]
    pub fn md_pad(&mut self, bitlen: u64) -> (r: (Vec<u8>, Option<Vec<u8>>))
        requires
            old(self).inv(),
            old(self).capacity() == 64,
            old(self).bytes().len() < 64,
        ensures
            final(self).inv(),
            final(self).capacity() == 64,
            final(self).bytes() == Seq::<u8>::empty(),
            r.0@.len() == 64,
            match r.1 {
                None => {
                    &&& r.0@ == old(self).bytes() + md_pad_seq(old(self).bytes().len(), bitlen)
                    &&& old(self).bytes().len() <= 55
                },
                Some(b2) => {
                    &&& r.0@ + b2@ == old(self).bytes() + md_pad_seq(
                        old(self).bytes().len(),
                        bitlen,
                    )
                    &&& b2@.len() == 64
                    &&& old(self).bytes().len() > 55
                },
            },
    {
        let n = self.data.len();
        let ghost start = self.data@;
        self.data.push(0x80u8);
        let target: usize = if n <= 55 {
            56
        } else {
            120
        };
        proof {
            assert(self.data@ =~= start + seq![0x80u8] + zeros(
                (self.data@.len() - n - 1) as nat,
            ));
        }
        while self.data.len() < target
            invariant
                n + 1 <= self.data@.len(),
                self.data@.len() <= target,
                n <= 55 ==> target == 56,
                n > 55 ==> target == 120,
                n == start.len(),
                n < 64,
                self.data@ == start + seq![0x80u8] + zeros((self.data@.len() - n - 1) as nat),
                self.cap == 64,
            decreases target - self.data@.len(),
        {
            self.data.push(0u8);
            proof {
                assert(self.data@ =~= start + seq![0x80u8] + zeros(
                    (self.data@.len() - n - 1) as nat,
                ));
            }
        }
        let ghost z = (target - n - 1) as nat;
        push64_le(&mut self.data, bitlen);
        proof {
            // The zero count chosen by the loop is the one the spec names.
            if n == 55 {
                lemma_mod_multiples_vanish(1, 0, 64);
                lemma_small_mod(0, 64);
            } else if n < 55 {
                lemma_small_mod((n + 9) as nat, 64);
                lemma_small_mod((55 - n) as nat, 64);
            } else {
                lemma_mod_multiples_vanish(1, (n - 55) as int, 64);
                lemma_small_mod((n - 55) as nat, 64);
                lemma_small_mod((119 - n) as nat, 64);
            }
            assert(md_zero_count(n as nat) == z);
            assert(self.data@ =~= start + md_pad_seq(n as nat, bitlen));
        }
        let total = self.data.len();
        assert(total == target + 8);
        assert(total == 64 || total == 128);
        let mut first: Vec<u8> = Vec::new();
        let mut k: usize = 0;
        while k < 64
            invariant
                k <= 64,
                self.data@.len() == total,
                total == 64 || total == 128,
                first@ == self.data@.subrange(0, k as int),
                self.data@ == start + md_pad_seq(n as nat, bitlen),
            decreases 64 - k,
        {
            first.push(self.data[k]);
            k += 1;
            proof {
                assert(first@ =~= self.data@.subrange(0, k as int));
            }
        }
        if total == 64 {
            self.data.clear();
            proof {
                assert(first@ =~= start + md_pad_seq(n as nat, bitlen));
                assert(self.bytes() =~= Seq::<u8>::empty());
            }
            (first, None)
        } else {
            let mut second: Vec<u8> = Vec::new();
            k = 64;
            while k < 128
                invariant
                    64 <= k <= 128,
                    self.data@.len() == total,
                    total == 128,
                    second@ == self.data@.subrange(64, k as int),
                    self.data@ == start + md_pad_seq(n as nat, bitlen),
                decreases 128 - k,
            {
                second.push(self.data[k]);
                k += 1;
                proof {
                    assert(second@ =~= self.data@.subrange(64, k as int));
                }
            }
            self.data.clear();
            proof {
                assert(first@ + second@ =~= start + md_pad_seq(n as nat, bitlen));
                assert(self.bytes() =~= Seq::<u8>::empty());
            }
            (first, Some(second))
        }
    }

    /// Sponge `pad10*1` padding with a domain suffix: completes the buffered
    /// bytes to exactly one full block and leaves the buffer empty.
    #[verifier::loop_isolation(false)]
    pub fn sponge_pad(&mut self, suffix: u8) -> (b: Vec<u8>)
        requires
            old(self).inv(),
            old(self).bytes().len() < old(self).capacity(),
        ensures
            final(self).inv(),
            final(self).capacity() == old(self).capacity(),
            final(self).bytes() == Seq::<u8>::empty(),
            b@ == old(self).bytes() + sponge_pad_seq(
                old(self).bytes().len(),
                old(self).capacity() as nat,
                suffix,
            ),
            b@.len() == old(self).capacity(),
    {
        let n = self.data.len();
        let ghost start = self.data@;
        if n + 1 == self.cap {
            self.data.push(suffix | 0x80u8);
        } else {
            self.data.push(suffix);
            proof {
                assert(self.data@ =~= start + seq![suffix] + zeros(
                    (self.data@.len() - n - 1) as nat,
                ));
            }
            while self.data.len() < self.cap - 1
                invariant
                    n + 1 <= self.data@.len(),
                    self.data@.len() <= self.cap - 1,
                    n == start.len(),
                    n + 1 < self.cap,
                    self.cap == old(self).cap,
                    self.data@ == start + seq![suffix] + zeros((self.data@.len() - n - 1) as nat),
                decreases self.cap - self.data@.len(),
            {
                self.data.push(0u8);
                proof {
                    assert(self.data@ =~= start + seq![suffix] + zeros(
                        (self.data@.len() - n - 1) as nat,
                    ));
                }
            }
            self.data.push(0x80u8);
        }
        proof {
            assert(self.data@ =~= start + sponge_pad_seq(
                n as nat,
                self.cap as nat,
                suffix,
            ));
        }
        let mut b: Vec<u8> = Vec::new();
        let mut k: usize = 0;
        let total = self.data.len();
        while k < total
            invariant
                k <= total,
                total == self.data@.len(),
                b@ == self.data@.subrange(0, k as int),
                self.cap == old(self).cap,
                self.data@ == start + sponge_pad_seq(n as nat, self.cap as nat, suffix),
            decreases total - k,
        {
            b.push(self.data[k]);
            k += 1;
            proof {
                assert(b@ =~= self.data@.subrange(0, k as int));
            }
        }
        self.data.clear();
        proof {
            assert(b@ =~= start + sponge_pad_seq(n as nat, self.cap as nat, suffix));
            assert(self.bytes() =~= Seq::<u8>::empty());
        }
        b
    }
}

} // verus!
