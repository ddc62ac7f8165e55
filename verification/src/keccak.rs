//! The Keccak-f[1600] permutation: 24 rounds over a 5x5 array of 64-bit
//! lanes, each round composed of the column-parity mixing (theta), the
//! lane rotations and relocation (rho and pi), the row-local nonlinear
//! substitution (chi) and the round-constant addition (iota). Lane `i`
//! holds coordinates `x = i % 5`, `y = i / 5`.

use vstd::prelude::*;
use crate::words::{rotl64, rotl64_x};

verus! {

/// Source lane moved onto lane `j` by the rho/pi relocation.
pub open spec fn ksrc(j: int) -> int {
    if j == 0 { 0 } else if j == 1 { 6 } else if j == 2 { 12 } else if j == 3 { 18 } else if j
    == 4 { 24 } else if j == 5 { 3 } else if j == 6 { 9 } else if j == 7 { 10 } else if j == 8 {
    16 } else if j == 9 { 22 } else if j == 10 { 1 } else if j == 11 { 7 } else if j == 12 { 13
    } else if j == 13 { 19 } else if j == 14 { 20 } else if j == 15 { 4 } else if j == 16 { 5 }
    else if j == 17 { 11 } else if j == 18 { 17 } else if j == 19 { 23 } else if j == 20 { 2 }
    else if j == 21 { 8 } else if j == 22 { 14 } else if j == 23 { 15 } else { 21 }
}

pub fn ksrc_x(j: usize) -> (r: usize)
    requires
        j < 25,
    ensures
        r as int == ksrc(j as int),
        r < 25,
{
    match j {
        0 => 0,
        1 => 6,
        2 => 12,
        3 => 18,
        4 => 24,
        5 => 3,
        6 => 9,
        7 => 10,
        8 => 16,
        9 => 22,
        10 => 1,
        11 => 7,
        12 => 13,
        13 => 19,
        14 => 20,
        15 => 4,
        16 => 5,
        17 => 11,
        18 => 17,
        19 => 23,
        20 => 2,
        21 => 8,
        22 => 14,
        23 => 15,
        _ => 21,
    }
}

/// Rotation offset of source lane `j`.
pub open spec fn krot(j: int) -> int {
    if j == 0 { 0 } else if j == 1 { 1 } else if j == 2 { 62 } else if j == 3 { 28 } else if j
    == 4 { 27 } else if j == 5 { 36 } else if j == 6 { 44 } else if j == 7 { 6 } else if j == 8
    { 55 } else if j == 9 { 20 } else if j == 10 { 3 } else if j == 11 { 10 } else if j == 12 {
    43 } else if j == 13 { 25 } else if j == 14 { 39 } else if j == 15 { 41 } else if j == 16 {
    45 } else if j == 17 { 15 } else if j == 18 { 21 } else if j == 19 { 8 } else if j == 20 {
    18 } else if j == 21 { 2 } else if j == 22 { 61 } else if j == 23 { 56 } else { 14 }
}

pub fn krot_x(j: usize) -> (r: usize)
    requires
        j < 25,
    ensures
        r as int == krot(j as int),
        r < 64,
{
    match j {
        0 => 0,
        1 => 1,
        2 => 62,
        3 => 28,
        4 => 27,
        5 => 36,
        6 => 44,
        7 => 6,
        8 => 55,
        9 => 20,
        10 => 3,
        11 => 10,
        12 => 43,
        13 => 25,
        14 => 39,
        15 => 41,
        16 => 45,
        17 => 15,
        18 => 21,
        19 => 8,
        20 => 18,
        21 => 2,
        22 => 61,
        23 => 56,
        _ => 14,
    }
}

/// Round constant added into lane 0 by round `j`.
pub open spec fn krc(j: int) -> u64 {
    if j == 0 { 0x0000000000000001u64 } else if j == 1 { 0x0000000000008082u64 } else if j == 2
    { 0x800000000000808au64 } else if j == 3 { 0x8000000080008000u64 } else if j == 4 {
    0x000000000000808bu64 } else if j == 5 { 0x0000000080000001u64 } else if j == 6 {
    0x8000000080008081u64 } else if j == 7 { 0x8000000000008009u64 } else if j == 8 {
    0x000000000000008au64 } else if j == 9 { 0x0000000000000088u64 } else if j == 10 {
    0x0000000080008009u64 } else if j == 11 { 0x000000008000000au64 } else if j == 12 {
    0x000000008000808bu64 } else if j == 13 { 0x800000000000008bu64 } else if j == 14 {
    0x8000000000008089u64 } else if j == 15 { 0x8000000000008003u64 } else if j == 16 {
    0x8000000000008002u64 } else if j == 17 { 0x8000000000000080u64 } else if j == 18 {
    0x000000000000800au64 } else if j == 19 { 0x800000008000000au64 } else if j == 20 {
    0x8000000080008081u64 } else if j == 21 { 0x8000000000008080u64 } else if j == 22 {
    0x0000000080000001u64 } else { 0x8000000080008008u64 }
}

pub fn krc_x(j: usize) -> (r: u64)
    requires
        j < 24,
    ensures
        r == krc(j as int),
{
    match j {
        0 => 0x0000000000000001u64,
        1 => 0x0000000000008082u64,
        2 => 0x800000000000808au64,
        3 => 0x8000000080008000u64,
        4 => 0x000000000000808bu64,
        5 => 0x0000000080000001u64,
        6 => 0x8000000080008081u64,
        7 => 0x8000000000008009u64,
        8 => 0x000000000000008au64,
        9 => 0x0000000000000088u64,
        10 => 0x0000000080008009u64,
        11 => 0x000000008000000au64,
        12 => 0x000000008000808bu64,
        13 => 0x800000000000008bu64,
        14 => 0x8000000000008089u64,
        15 => 0x8000000000008003u64,
        16 => 0x8000000000008002u64,
        17 => 0x8000000000000080u64,
        18 => 0x000000000000800au64,
        19 => 0x800000008000000au64,
        20 => 0x8000000080008081u64,
        21 => 0x8000000000008080u64,
        22 => 0x0000000080000001u64,
        _ => 0x8000000080008008u64,
    }
}

/// Parity of column `x`.
pub open spec fn theta_c(s: Seq<u64>, x: int) -> u64
    recommends
        s.len() == 25,
        0 <= x < 5,
{
    s[x] ^ s[x + 5] ^ s[x + 10] ^ s[x + 15] ^ s[x + 20]
}

/// The value theta mixes into every lane of column `x`.
pub open spec fn theta_d(s: Seq<u64>, x: int) -> u64
    recommends
        s.len() == 25,
        0 <= x < 5,
{
    theta_c(s, (x + 4) % 5) ^ rotl64(theta_c(s, (x + 1) % 5), 1)
}

/// Column-parity mixing.
pub open spec fn theta(s: Seq<u64>) -> Seq<u64>
    recommends
        s.len() == 25,
{
    Seq::new(25, |i: int| s[i] ^ theta_d(s, i % 5))
}

/// Lane rotation and relocation.
pub open spec fn rho_pi(s: Seq<u64>) -> Seq<u64>
    recommends
        s.len() == 25,
{
    Seq::new(25, |j: int| rotl64(s[ksrc(j)], krot(ksrc(j))))
}

/// Row-local nonlinear substitution.
pub open spec fn chi(s: Seq<u64>) -> Seq<u64>
    recommends
        s.len() == 25,
{
    Seq::new(
        25,
        |i: int| s[i] ^ ((!s[5 * (i / 5) + (i + 1) % 5]) & s[5 * (i / 5) + (i + 2) % 5]),
    )
}

/// Round-constant addition into lane 0.
pub open spec fn iota(s: Seq<u64>, r: int) -> Seq<u64>
    recommends
        s.len() == 25,
        0 <= r < 24,
{
    s.update(0, s[0] ^ krc(r))
}

/// One full round.
pub open spec fn keccak_round(s: Seq<u64>, r: int) -> Seq<u64>
    recommends
        s.len() == 25,
        0 <= r < 24,
{
    iota(chi(rho_pi(theta(s))), r)
}

/// The state after the first `n` rounds.
pub open spec fn keccak_rounds(s: Seq<u64>, n: int) -> Seq<u64>
    recommends
        s.len() == 25,
        0 <= n <= 24,
    decreases n,
{
    if n <= 0 {
        s
    } else {
        keccak_round(keccak_rounds(s, n - 1), n - 1)
    }
}

/// The Keccak-f[1600] permutation: 24 rounds.
pub open spec fn keccak_f(s: Seq<u64>) -> Seq<u64>
    recommends
        s.len() == 25,
{
    keccak_rounds(s, 24)
}

/// Applies the permutation in place. The result is a deterministic
/// function of the input state alone.
#[verifier::loop_isolation(false)]
#[verifier::rlimit(60)]
pub fn keccak_permutation(s: &mut Vec<u64>)
    requires
        old(s)@.len() == 25,
    ensures
        final(s)@ == keccak_f(old(s)@),
        final(s)@.len() == 25,
{
    let mut r: usize = 0;
    while r < 24
        invariant
            r <= 24,
            s@.len() == 25,
            s@ == keccak_rounds(old(s)@, r as int),
        decreases 24 - r,
    {
        let ghost sr = s@;
        let mut c: Vec<u64> = Vec::new();
        let mut x: usize = 0;
        while x < 5
            invariant
                x <= 5,
                c@.len() == x as int,
                forall|k: int| 0 <= k < x ==> c@[k] == theta_c(sr, k),
                s@ == sr,
            decreases 5 - x,
        {
            c.push(s[x] ^ s[x + 5] ^ s[x + 10] ^ s[x + 15] ^ s[x + 20]);
            x += 1;
        }
        let mut d: Vec<u64> = Vec::new();
        x = 0;
        while x < 5
            invariant
                x <= 5,
                d@.len() == x as int,
                forall|k: int| 0 <= k < x ==> d@[k] == theta_d(sr, k),
                s@ == sr,
            decreases 5 - x,
        {
            d.push(c[(x + 4) % 5] ^ rotl64_x(c[(x + 1) % 5], 1));
            x += 1;
        }
        let mut t: Vec<u64> = Vec::new();
        let mut i: usize = 0;
        while i < 25
            invariant
                i <= 25,
                t@.len() == i as int,
                forall|k: int| 0 <= k < i ==> t@[k] == theta(sr)[k],
                s@ == sr,
            decreases 25 - i,
        {
            t.push(s[i] ^ d[i % 5]);
            i += 1;
        }
        proof {
            assert(t@ =~= theta(sr));
        }
        let mut u: Vec<u64> = Vec::new();
        i = 0;
        while i < 25
            invariant
                i <= 25,
                u@.len() == i as int,
                forall|k: int| 0 <= k < i ==> u@[k] == rho_pi(t@)[k],
            decreases 25 - i,
        {
            let si = ksrc_x(i);
            u.push(rotl64_x(t[si], (krot_x(si)) as u64));
            i += 1;
        }
        proof {
            assert(u@ =~= rho_pi(t@));
        }
        let mut v: Vec<u64> = Vec::new();
        i = 0;
        while i < 25
            invariant
                i <= 25,
                v@.len() == i as int,
                forall|k: int| 0 <= k < i ==> v@[k] == chi(u@)[k],
            decreases 25 - i,
        {
            let base = (i / 5) * 5;
            v.push(u[i] ^ ((!u[base + (i + 1) % 5]) & u[base + (i + 2) % 5]));
            i += 1;
        }
        proof {
            assert(v@ =~= chi(u@));
        }
        let rc = krc_x(r);
        let v0 = v[0];
        v.set(0, v0 ^ rc);
        proof {
            assert(v@ =~= keccak_round(sr, r as int));
        }
        *s = v;
        r += 1;
    }
}

} // verus!
