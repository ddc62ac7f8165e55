//! The sponge construction over the Keccak permutation: absorbing with
//! domain-separated `pad10*1` padding, fixed-output squeezing (the SHA-3
//! digests) and extendable-output squeezing (the SHAKE readers).

use vstd::prelude::*;
use vstd::arithmetic::div_mod::{lemma_fundamental_div_mod, lemma_fundamental_div_mod_converse,
    lemma_mod_multiples_vanish, lemma_small_mod};
use crate::words::{le64, byte64, load64, byte64_x};
use crate::buffer::{BlockBuffer, sponge_pad_seq};
use crate::keccak::{keccak_f, keccak_permutation};

verus! {

/// The all-zero initial state.
pub open spec fn zero_lanes() -> Seq<u64> {
    Seq::new(25, |i: int| 0u64)
}

/// XORs a block of at most 200 bytes (a whole number of lanes) into the
/// leading lanes of the state.
pub open spec fn xor_lanes(s: Seq<u64>, block: Seq<u8>) -> Seq<u64>
    recommends
        s.len() == 25,
        block.len() % 8 == 0,
        block.len() <= 200,
{
    Seq::new(
        25,
        |i: int|
            if 8 * i + 8 <= block.len() {
                s[i] ^ le64(block, 8 * i)
            } else {
                s[i]
            },
    )
}

/// Absorbs one rate-sized block: XOR it in, then permute.
pub open spec fn absorb_block(s: Seq<u64>, block: Seq<u8>) -> Seq<u64> {
    keccak_f(xor_lanes(s, block))
}

/// Absorbs every rate-sized block of `m` in order.
pub open spec fn sponge_fold(s: Seq<u64>, m: Seq<u8>, rate: int) -> Seq<u64>
    recommends
        1 <= rate,
        m.len() as int % rate == 0,
    decreases m.len(),
{
    if rate < 1 || m.len() < rate {
        s
    } else {
        sponge_fold(absorb_block(s, m.take(rate)), m.skip(rate), rate)
    }
}

/// Folding one more block equals absorbing it after folding the rest.
pub proof fn lemma_sponge_fold_snoc(s: Seq<u64>, m: Seq<u8>, b: Seq<u8>, rate: int)
    requires
        1 <= rate,
        m.len() as int % rate == 0,
        b.len() == rate,
    ensures
        sponge_fold(s, m + b, rate) == absorb_block(sponge_fold(s, m, rate), b),
    decreases m.len(),
{
    reveal_with_fuel(sponge_fold, 3);
    if m.len() == 0 {
        assert(m + b =~= b);
        assert(b.take(rate) =~= b);
        assert(b.skip(rate) =~= Seq::<u8>::empty());
    } else {
        if m.len() < rate {
            lemma_small_mod(m.len(), rate as nat);
            assert(false);
        }
        assert((m + b).take(rate) =~= m.take(rate));
        assert((m + b).skip(rate) =~= m.skip(rate) + b);
        lemma_mod_multiples_vanish(-1, m.len() as int, rate);
        lemma_sponge_fold_snoc(absorb_block(s, m.take(rate)), m.skip(rate), b, rate);
    }
}

/// The state after absorbing the whole message followed by its padding.
pub open spec fn sponge_absorbed(m: Seq<u8>, rate: int, suffix: u8) -> Seq<u64>
    recommends
        1 <= rate <= 200,
        rate % 8 == 0,
{
    sponge_fold(
        zero_lanes(),
        m + sponge_pad_seq((m.len() as int % rate) as nat, rate as nat, suffix),
        rate,
    )
}

/// The 200 bytes of the state, lanes serialized little-endian.
pub open spec fn state_bytes(s: Seq<u64>) -> Seq<u8>
    recommends
        s.len() == 25,
{
    Seq::new(200, |i: int| byte64(s[i / 8], i % 8))
}

/// A fixed-output sponge digest: the leading `outlen` bytes of the state
/// after absorbing the padded message.
pub open spec fn sha3_digest(m: Seq<u8>, rate: int, suffix: u8, outlen: int) -> Seq<u8>
    recommends
        1 <= rate <= 200,
        rate % 8 == 0,
        0 <= outlen <= rate,
{
    state_bytes(sponge_absorbed(m, rate, suffix)).take(outlen)
}

/// The state after `k` further permutations of the squeezing phase.
pub open spec fn lanes_after(s: Seq<u64>, k: int) -> Seq<u64>
    decreases k,
{
    if k <= 0 {
        s
    } else {
        keccak_f(lanes_after(s, k - 1))
    }
}

/// Byte `p` of the unbounded squeeze stream of state `s` at rate `rate`.
pub open spec fn xof_byte(s: Seq<u64>, rate: int, p: int) -> u8
    recommends
        1 <= rate <= 200,
        0 <= p,
{
    state_bytes(lanes_after(s, p / rate))[p % rate]
}

/// Bytes `start .. start + n` of the squeeze stream.
pub open spec fn xof_bytes(s: Seq<u64>, rate: int, start: int, n: int) -> Seq<u8>
    recommends
        1 <= rate <= 200,
        0 <= start,
        0 <= n,
{
    Seq::new(n as nat, |i: int| xof_byte(s, rate, start + i))
}

/// Squeeze continuity: reading `n` bytes and then `m` more yields exactly
/// the bytes of a single `n + m`-byte read.
pub proof fn lemma_squeeze_continuity(s: Seq<u64>, rate: int, start: int, n: int, m: int)
    requires
        0 <= n,
        0 <= m,
    ensures
        xof_bytes(s, rate, start, n) + xof_bytes(s, rate, start + n, m) == xof_bytes(
            s,
            rate,
            start,
            n + m,
        ),
{
    assert(xof_bytes(s, rate, start, n) + xof_bytes(s, rate, start + n, m) =~= xof_bytes(
        s,
        rate,
        start,
        n + m,
    ));
}

/// A buffered tail shorter than the rate is the message length modulo the rate.
proof fn lemma_tail_is_mod(n: int, t: int, rate: int)
    requires
        1 <= rate,
        0 <= t < rate,
        t <= n,
        (n - t) % rate == 0,
    ensures
        n % rate == t,
{
    lemma_fundamental_div_mod(n - t, rate);
    let q = (n - t) / rate;
    assert(rate * q == q * rate) by (nonlinear_arith);
    lemma_fundamental_div_mod_converse(n, rate, q, t);
}

/// XORs `block` into the leading lanes and applies the permutation.
#[verifier::loop_isolation(false)]
pub fn absorb_block_x(lanes: &mut Vec<u64>, block: &Vec<u8>)
    requires
        old(lanes)@.len() == 25,
        block@.len() % 8 == 0,
        block@.len() <= 200,
    ensures
        final(lanes)@ == absorb_block(old(lanes)@, block@),
        final(lanes)@.len() == 25,
{
    let nb = block.len() / 8;
    proof {
        lemma_fundamental_div_mod(block@.len() as int, 8);
    }
    let mut i: usize = 0;
    while i < nb
        invariant
            i <= nb,
            block@.len() == 8 * nb,
            nb <= 25,
            lanes@.len() == 25,
            forall|k: int| 0 <= k < i ==> lanes@[k] == xor_lanes(old(lanes)@, block@)[k],
            forall|k: int| i <= k < 25 ==> lanes@[k] == old(lanes)@[k],
        decreases nb - i,
    {
        let w = load64(block, 8 * i);
        let li = lanes[i];
        lanes.set(i, li ^ w);
        i += 1;
    }
    proof {
        assert(lanes@ =~= xor_lanes(old(lanes)@, block@));
    }
    keccak_permutation(lanes);
}

fn zero_lanes_x() -> (r: Vec<u64>)
    ensures
        r@ == zero_lanes(),
        r@.len() == 25,
{
    let mut r: Vec<u64> = Vec::new();
    let mut i: usize = 0;
    while i < 25
        invariant
            i <= 25,
            r@.len() == i as int,
            forall|k: int| 0 <= k < i ==> r@[k] == 0u64,
        decreases 25 - i,
    {
        r.push(0u64);
        i += 1;
    }
    proof {
        assert(r@ =~= zero_lanes());
    }
    r
}

fn copy_lanes(v: &Vec<u64>) -> (r: Vec<u64>)
    ensures
        r@ == v@,
{
    let mut r: Vec<u64> = Vec::new();
    let mut i: usize = 0;
    let n = v.len();
    while i < n
        invariant
            i <= n,
            n == v@.len(),
            r@ == v@.subrange(0, i as int),
        decreases n - i,
    {
        r.push(v[i]);
        i += 1;
        proof {
            assert(r@ =~= v@.subrange(0, i as int));
        }
    }
    proof {
        assert(r@ =~= v@);
    }
    r
}

/// The sponge engine: a rate-sized block buffer wired to the permutation.
/// Its view is the sequence of message bytes absorbed since construction
/// or the last finalization.
pub struct Sponge {
    lanes: Vec<u64>,
    buffer: BlockBuffer,
    rate: usize,
    suffix: u8,
    msg: Ghost<Seq<u8>>,
}

impl View for Sponge {
    type V = Seq<u8>;

    closed spec fn view(&self) -> Seq<u8> {
        self.msg@
    }
}

impl Sponge {
    /// Bytes absorbed and squeezed per permutation call.
    pub closed spec fn rate_spec(&self) -> int {
        self.rate as int
    }

    /// The domain-separation byte fed to the padding rule.
    pub closed spec fn suffix_spec(&self) -> u8 {
        self.suffix
    }

    pub closed spec fn wf(&self) -> bool {
        let n = self.msg@.len() as int;
        let t = self.buffer.bytes().len() as int;
        &&& self.lanes@.len() == 25
        &&& self.buffer.inv()
        &&& self.buffer.capacity() == self.rate
        &&& 1 <= self.rate <= 200
        &&& self.rate % 8 == 0
        &&& t < self.rate
        &&& t <= n
        &&& (n - t) % (self.rate as int) == 0
        &&& self.buffer.bytes() == self.msg@.skip(n - t)
        &&& self.lanes@ == sponge_fold(zero_lanes(), self.msg@.take(n - t), self.rate as int)
    }

    pub fn new(rate: usize, suffix: u8) -> (r: Sponge)
        requires
            1 <= rate <= 200,
            rate % 8 == 0,
        ensures
            r.wf(),
            r@ == Seq::<u8>::empty(),
            r.rate_spec() == rate,
            r.suffix_spec() == suffix,
    {
        let r = Sponge {
            lanes: zero_lanes_x(),
            buffer: BlockBuffer::new(rate),
            rate,
            suffix,
            msg: Ghost(Seq::empty()),
        };
        proof {
            assert(r.msg@.take(0) =~= Seq::<u8>::empty());
            assert(r.msg@.skip(0) =~= Seq::<u8>::empty());
        }
        r
    }

    /// Feeds more message bytes; every full rate-sized block is absorbed.
    #[verifier::loop_isolation(false)]
    #[verifier::rlimit(60)]
    pub fn absorb(&mut self, input: &[u8])
        requires
            old(self).wf(),
        ensures
            final(self).wf(),
            final(self)@ == old(self)@ + input@,
            final(self).rate_spec() == old(self).rate_spec(),
            final(self).suffix_spec() == old(self).suffix_spec(),
    {
        let ghost m0 = self.msg@;
        let mut i: usize = 0;
        while i < input.len()
            invariant
                i <= input@.len(),
                self.wf(),
                self.rate == old(self).rate,
                self.suffix == old(self).suffix,
                self.msg@ == m0 + input@.subrange(0, i as int),
            decreases input@.len() - i,
        {
            let ghost before = self.msg@;
            let ghost tfull = before.len() - self.buffer.bytes().len();
            let n = self.buffer.fill(input, i);
            self.msg = Ghost(self.msg@ + input@.subrange(i as int, i as int + n as int));
            proof {
                assert(self.msg@.skip(tfull) =~= before.skip(tfull) + input@.subrange(
                    i as int,
                    i as int + n as int,
                ));
                assert(self.msg@.take(tfull) =~= before.take(tfull));
                assert(self.msg@ =~= m0 + input@.subrange(0, i as int + n as int));
            }
            if self.buffer.is_full() {
                let b = self.buffer.take_full();
                let ghost l = self.msg@.len() as int;
                let ghost rt = self.rate as int;
                proof {
                    assert(b@ =~= self.msg@.skip(l - rt));
                    lemma_sponge_fold_snoc(zero_lanes(), self.msg@.take(l - rt), b@, rt);
                    lemma_mod_multiples_vanish(1, l - rt, rt);
                    assert(self.msg@.take(l - rt) + b@ =~= self.msg@);
                    assert(self.msg@.take(l) =~= self.msg@);
                    assert(self.msg@.skip(l) =~= Seq::<u8>::empty());
                }
                absorb_block_x(&mut self.lanes, &b);
            }
            i = i + n;
        }
        proof {
            assert(input@.subrange(0, input@.len() as int) =~= input@);
        }
    }

    /// Pads with the domain suffix and absorbs the final block, leaving the
    /// lanes holding `sponge_absorbed` of the whole message.
    #[verifier::rlimit(60)]
    fn pad_and_absorb(&mut self)
        requires
            old(self).wf(),
        ensures
            final(self).lanes@ == sponge_absorbed(
                old(self)@,
                old(self).rate_spec(),
                old(self).suffix_spec(),
            ),
            final(self).lanes@.len() == 25,
            final(self).buffer.bytes() == Seq::<u8>::empty(),
            final(self).buffer.inv(),
            final(self).buffer.capacity() == old(self).rate_spec(),
            final(self).rate == old(self).rate,
            final(self).suffix == old(self).suffix,
            final(self).msg@ == old(self).msg@,
    {
        let ghost m = self.msg@;
        let ghost l = m.len() as int;
        let ghost tail = self.buffer.bytes();
        let ghost t = tail.len() as int;
        let ghost rt = self.rate as int;
        let b = self.buffer.sponge_pad(self.suffix);
        proof {
            lemma_tail_is_mod(l, t, rt);
            let pad = sponge_pad_seq((l % rt) as nat, rt as nat, self.suffix);
            assert(b@ == tail + pad);
            let full = m.take(l - t);
            assert(full + tail =~= m);
            lemma_sponge_fold_snoc(zero_lanes(), full, b@, rt);
            assert(full + (tail + pad) =~= (full + tail) + pad);
            assert(full + b@ == m + pad);
        }
        absorb_block_x(&mut self.lanes, &b);
    }

    /// Fixed-output finalization: pads, absorbs, reads the first `outlen`
    /// state bytes as the digest, and resets to the initial absorbing state.
    #[verifier::loop_isolation(false)]
    #[verifier::rlimit(60)]
    pub fn squeeze_digest(&mut self, outlen: usize) -> (out: Vec<u8>)
        requires
            old(self).wf(),
            outlen <= old(self).rate_spec(),
        ensures
            out@ == sha3_digest(
                old(self)@,
                old(self).rate_spec(),
                old(self).suffix_spec(),
                outlen as int,
            ),
            out@.len() == outlen,
            final(self).wf(),
            final(self)@ == Seq::<u8>::empty(),
            final(self).rate_spec() == old(self).rate_spec(),
            final(self).suffix_spec() == old(self).suffix_spec(),
    {
        self.pad_and_absorb();
        let mut out: Vec<u8> = Vec::new();
        let mut i: usize = 0;
        while i < outlen
            invariant
                i <= outlen,
                outlen <= 200,
                self.lanes@.len() == 25,
                out@.len() == i as int,
                forall|k: int| 0 <= k < i ==> out@[k] == state_bytes(self.lanes@)[k],
            decreases outlen - i,
        {
            let li = self.lanes[i / 8];
            out.push(byte64_x(li, i % 8));
            i += 1;
        }
        proof {
            assert(out@ =~= state_bytes(self.lanes@).take(outlen as int));
        }
        self.lanes = zero_lanes_x();
        self.msg = Ghost(Seq::empty());
        proof {
            assert(self.msg@.take(0) =~= Seq::<u8>::empty());
            assert(self.msg@.skip(0) =~= Seq::<u8>::empty());
        }
        out
    }

    /// Extendable-output finalization: pads, absorbs, hands the final state
    /// to a reader, and resets to the initial absorbing state.
    pub fn squeeze_xof(&mut self) -> (r: Sha3XofReader)
        requires
            old(self).wf(),
        ensures
            r.wf(),
            r.base_spec() == sponge_absorbed(
                old(self)@,
                old(self).rate_spec(),
                old(self).suffix_spec(),
            ),
            r.rate_spec() == old(self).rate_spec(),
            r.pos_spec() == 0,
            final(self).wf(),
            final(self)@ == Seq::<u8>::empty(),
            final(self).rate_spec() == old(self).rate_spec(),
            final(self).suffix_spec() == old(self).suffix_spec(),
    {
        self.pad_and_absorb();
        let lanes = copy_lanes(&self.lanes);
        let ghost base = lanes@;
        let r = Sha3XofReader { lanes, rate: self.rate, offset: 0, base: Ghost(base), steps: Ghost(0) };
        self.lanes = zero_lanes_x();
        self.msg = Ghost(Seq::empty());
        proof {
            assert(self.msg@.take(0) =~= Seq::<u8>::empty());
            assert(self.msg@.skip(0) =~= Seq::<u8>::empty());
        }
        r
    }
}

/// A pull-based reader over the unbounded squeeze stream of a finalized
/// sponge. Deterministic: every byte is a function of the finalized state,
/// the rate, and the position alone.
pub struct Sha3XofReader {
    lanes: Vec<u64>,
    rate: usize,
    offset: usize,
    base: Ghost<Seq<u64>>,
    steps: Ghost<int>,
}

impl Sha3XofReader {
    /// The finalized state the stream is squeezed from.
    pub closed spec fn base_spec(&self) -> Seq<u64> {
        self.base@
    }

    pub closed spec fn rate_spec(&self) -> int {
        self.rate as int
    }

    /// Total bytes handed out so far.
    pub closed spec fn pos_spec(&self) -> int {
        self.steps@ * (self.rate as int) + self.offset
    }

    pub closed spec fn wf(&self) -> bool {
        &&& self.lanes@.len() == 25
        &&& self.base@.len() == 25
        &&& 1 <= self.rate <= 200
        &&& self.rate % 8 == 0
        &&& self.offset <= self.rate
        &&& self.steps@ >= 0
        &&& self.lanes@ == lanes_after(self.base@, self.steps@)
    }

    /// Returns the next `n` bytes of the output stream, permuting for a
    /// fresh rate-sized window whenever the current one is exhausted.
    #[verifier::loop_isolation(false)]
    #[verifier::rlimit(60)]
    pub fn read(&mut self, n: usize) -> (out: Vec<u8>)
        requires
            old(self).wf(),
        ensures
            final(self).wf(),
            out@ == xof_bytes(
                old(self).base_spec(),
                old(self).rate_spec(),
                old(self).pos_spec(),
                n as int,
            ),
            out@.len() == n,
            final(self).pos_spec() == old(self).pos_spec() + n,
            final(self).base_spec() == old(self).base_spec(),
            final(self).rate_spec() == old(self).rate_spec(),
    {
        let mut out: Vec<u8> = Vec::new();
        let mut produced: usize = 0;
        let ghost p0 = self.pos_spec();
        while produced < n
            invariant
                produced <= n,
                self.wf(),
                self.base@ == old(self).base@,
                self.rate == old(self).rate,
                self.pos_spec() == p0 + produced,
                out@.len() == produced as int,
                forall|k: int|
                    0 <= k < produced ==> out@[k] == xof_byte(
                        self.base@,
                        self.rate as int,
                        p0 + k,
                    ),
            decreases n - produced,
        {
            if self.offset == self.rate {
                keccak_permutation(&mut self.lanes);
                self.offset = 0;
                self.steps = Ghost(self.steps@ + 1);
                proof {
                    assert((self.steps@) * (self.rate as int) == (self.steps@ - 1) * (
                    self.rate as int) + self.rate) by (nonlinear_arith);
                }
            }
            let off = self.offset;
            let li = self.lanes[off / 8];
            let b = byte64_x(li, off % 8);
            proof {
                lemma_fundamental_div_mod_converse(
                    self.steps@ * (self.rate as int) + off,
                    self.rate as int,
                    self.steps@,
                    off as int,
                );
                assert(b == xof_byte(self.base@, self.rate as int, p0 + produced));
            }
            out.push(b);
            self.offset = off + 1;
            produced += 1;
        }
        proof {
            assert(out@ =~= xof_bytes(old(self).base@, old(self).rate_spec(), p0, n as int));
        }
        out
    }
}

} // verus!
