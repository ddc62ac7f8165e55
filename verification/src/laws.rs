//! Laws of the streaming interface, stated over the hashers' views: a
//! hasher's digest depends only on the concatenation of the chunks fed to
//! it, empty updates change nothing, and finalizing resets the view so the
//! next message hashes as if from a fresh hasher.

use vstd::prelude::*;
use crate::ripemd::rmd160_hash;
use crate::sponge::sha3_digest;

verus! {

/// The view of a hasher whose view was `init` after one `update` call per
/// chunk of `chunks`, in order: each update appends its chunk.
pub open spec fn view_after_updates(init: Seq<u8>, chunks: Seq<Seq<u8>>) -> Seq<u8>
    decreases chunks.len(),
{
    if chunks.len() == 0 {
        init
    } else {
        view_after_updates(init + chunks[0], chunks.skip(1))
    }
}

/// Feeding chunks in order accumulates exactly their concatenation.
pub proof fn lemma_updates_concat(init: Seq<u8>, chunks: Seq<Seq<u8>>)
    ensures
        view_after_updates(init, chunks) == init + chunks.flatten(),
    decreases chunks.len(),
{
    if chunks.len() == 0 {
        assert(init + chunks.flatten() =~= init);
    } else {
        lemma_updates_concat(init + chunks[0], chunks.skip(1));
        assert(chunks.drop_first() =~= chunks.skip(1));
        assert((init + chunks[0]) + chunks.skip(1).flatten() =~= init + (chunks[0] + chunks.skip(
            1,
        ).flatten()));
    }
}

/// Streaming invariance: hashing a message fed in one update equals hashing
/// it fed in any partition into consecutive chunks, for both constructions.
pub proof fn lemma_streaming_invariance(
    chunks: Seq<Seq<u8>>,
    m: Seq<u8>,
    rate: int,
    suffix: u8,
    outlen: int,
)
    requires
        chunks.flatten() == m,
    ensures
        view_after_updates(Seq::<u8>::empty(), chunks) == m,
        rmd160_hash(view_after_updates(Seq::<u8>::empty(), chunks)) == rmd160_hash(m),
        sha3_digest(view_after_updates(Seq::<u8>::empty(), chunks), rate, suffix, outlen)
            == sha3_digest(m, rate, suffix, outlen),
{
    lemma_updates_concat(Seq::<u8>::empty(), chunks);
    assert(Seq::<u8>::empty() + m =~= m);
}

/// Empty updates are no-ops: appending or prepending an empty chunk leaves
/// the view, and so every digest, unchanged.
pub proof fn lemma_empty_update_noop(m: Seq<u8>, rate: int, suffix: u8, outlen: int)
    ensures
        m + Seq::<u8>::empty() == m,
        Seq::<u8>::empty() + m == m,
        rmd160_hash(m + Seq::<u8>::empty()) == rmd160_hash(m),
        rmd160_hash(Seq::<u8>::empty() + m) == rmd160_hash(m),
        sha3_digest(m + Seq::<u8>::empty(), rate, suffix, outlen) == sha3_digest(
            m,
            rate,
            suffix,
            outlen,
        ),
        sha3_digest(Seq::<u8>::empty() + m, rate, suffix, outlen) == sha3_digest(
            m,
            rate,
            suffix,
            outlen,
        ),
{
    assert(m + Seq::<u8>::empty() =~= m);
    assert(Seq::<u8>::empty() + m =~= m);
}

/// Finalizing resets: after a finalization the view is empty, so feeding a
/// new message `m2` hashes it exactly as a freshly constructed hasher would.
pub proof fn lemma_finalize_resets(m2: Seq<u8>, rate: int, suffix: u8, outlen: int)
    ensures
        rmd160_hash(Seq::<u8>::empty() + m2) == rmd160_hash(m2),
        sha3_digest(Seq::<u8>::empty() + m2, rate, suffix, outlen) == sha3_digest(
            m2,
            rate,
            suffix,
            outlen,
        ),
{
    assert(Seq::<u8>::empty() + m2 =~= m2);
}

} // verus!
