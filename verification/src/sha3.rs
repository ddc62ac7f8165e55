//! The SHA-3 fixed-output digests and the SHAKE extendable-output hashers:
//! one generic sponge engine instantiated per variant with its rate, output
//! size and padding domain suffix.
//!
//! Fixed variants use the domain suffix `0x06` and a rate of
//! `200 - 2 * output_size` bytes; the SHAKE variants use the suffix `0x1f`.

use vstd::prelude::*;
use crate::sponge::{Sponge, Sha3XofReader, sha3_digest, sponge_absorbed};

verus! {

/// Padding domain suffix of the fixed-output variants (bits `01`).
pub open spec fn sha3_suffix() -> u8 {
    0x06
}

/// Padding domain suffix of the extendable-output variants (bits `1111`).
pub open spec fn shake_suffix() -> u8 {
    0x1f
}

/// A fixed-output SHA-3 hasher. Its view is the message absorbed so far.
pub struct Sha3 {
    sponge: Sponge,
    outlen: usize,
}

impl View for Sha3 {
    type V = Seq<u8>;

    closed spec fn view(&self) -> Seq<u8> {
        self.sponge@
    }
}

impl Sha3 {
    pub closed spec fn wf(&self) -> bool {
        &&& self.sponge.wf()
        &&& self.sponge.suffix_spec() == sha3_suffix()
        &&& self.outlen <= self.sponge.rate_spec()
    }

    /// Block size of this variant in bytes.
    pub closed spec fn rate_spec(&self) -> int {
        self.sponge.rate_spec()
    }

    /// Digest size of this variant in bytes.
    pub closed spec fn outlen_spec(&self) -> int {
        self.outlen as int
    }

    fn with_params(rate: usize, outlen: usize) -> (r: Sha3)
        requires
            1 <= rate <= 200,
            rate % 8 == 0,
            outlen <= rate,
        ensures
            r.wf(),
            r@ == Seq::<u8>::empty(),
            r.rate_spec() == rate,
            r.outlen_spec() == outlen,
    {
        Sha3 { sponge: Sponge::new(rate, 0x06), outlen }
    }

    pub fn new_224() -> (r: Sha3)
        ensures
            r.wf(),
            r@ == Seq::<u8>::empty(),
            r.rate_spec() == 144,
            r.outlen_spec() == 28,
    {
        Sha3::with_params(144, 28)
    }

    pub fn new_256() -> (r: Sha3)
        ensures
            r.wf(),
            r@ == Seq::<u8>::empty(),
            r.rate_spec() == 136,
            r.outlen_spec() == 32,
    {
        Sha3::with_params(136, 32)
    }

    pub fn new_384() -> (r: Sha3)
        ensures
            r.wf(),
            r@ == Seq::<u8>::empty(),
            r.rate_spec() == 104,
            r.outlen_spec() == 48,
    {
        Sha3::with_params(104, 48)
    }

    pub fn new_512() -> (r: Sha3)
        ensures
            r.wf(),
            r@ == Seq::<u8>::empty(),
            r.rate_spec() == 72,
            r.outlen_spec() == 64,
    {
        Sha3::with_params(72, 64)
    }

    /// Feeds more message bytes.
    pub fn process(&mut self, data: &[u8])
        requires
            old(self).wf(),
        ensures
            final(self).wf(),
            final(self)@ == old(self)@ + data@,
            final(self).rate_spec() == old(self).rate_spec(),
            final(self).outlen_spec() == old(self).outlen_spec(),
    {
        self.sponge.absorb(data);
    }

    /// Produces the digest of everything fed so far and resets the hasher.
    pub fn fixed_result(&mut self) -> (digest: Vec<u8>)
        requires
            old(self).wf(),
        ensures
            digest@ == sha3_digest(
                old(self)@,
                old(self).rate_spec(),
                sha3_suffix(),
                old(self).outlen_spec(),
            ),
            digest@.len() == old(self).outlen_spec(),
            final(self).wf(),
            final(self)@ == Seq::<u8>::empty(),
            final(self).rate_spec() == old(self).rate_spec(),
            final(self).outlen_spec() == old(self).outlen_spec(),
    {
        self.sponge.squeeze_digest(self.outlen)
    }
}

/// An extendable-output SHAKE hasher. Its view is the message absorbed so
/// far; finalizing yields a reader over the unbounded output stream.
pub struct Shake {
    sponge: Sponge,
}

impl View for Shake {
    type V = Seq<u8>;

    closed spec fn view(&self) -> Seq<u8> {
        self.sponge@
    }
}

impl Shake {
    pub closed spec fn wf(&self) -> bool {
        &&& self.sponge.wf()
        &&& self.sponge.suffix_spec() == shake_suffix()
    }

    /// Block size of this variant in bytes.
    pub closed spec fn rate_spec(&self) -> int {
        self.sponge.rate_spec()
    }

    pub fn new_128() -> (r: Shake)
        ensures
            r.wf(),
            r@ == Seq::<u8>::empty(),
            r.rate_spec() == 168,
    {
        Shake { sponge: Sponge::new(168, 0x1f) }
    }

    pub fn new_256() -> (r: Shake)
        ensures
            r.wf(),
            r@ == Seq::<u8>::empty(),
            r.rate_spec() == 136,
    {
        Shake { sponge: Sponge::new(136, 0x1f) }
    }

    /// Feeds more message bytes.
    pub fn process(&mut self, data: &[u8])
        requires
            old(self).wf(),
        ensures
            final(self).wf(),
            final(self)@ == old(self)@ + data@,
            final(self).rate_spec() == old(self).rate_spec(),
    {
        self.sponge.absorb(data);
    }

    /// Finalizes into a reader over the deterministic unbounded output
    /// stream, and resets the hasher for a fresh message.
    pub fn xof_result(&mut self) -> (r: Sha3XofReader)
        requires
            old(self).wf(),
        ensures
            r.wf(),
            r.base_spec() == sponge_absorbed(old(self)@, old(self).rate_spec(), shake_suffix()),
            r.rate_spec() == old(self).rate_spec(),
            r.pos_spec() == 0,
            final(self).wf(),
            final(self)@ == Seq::<u8>::empty(),
            final(self).rate_spec() == old(self).rate_spec(),
    {
        self.sponge.squeeze_xof()
    }
}

} // verus!
