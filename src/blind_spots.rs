//! Corruptions that the bitwise checksums provably miss.
use vstd::prelude::*;
use crate::algorithm::Algorithm;
use crate::checksum::{and_spec, lemma_xor_update, or_spec, xor_spec};
use crate::coverage::{detected_in_block, flip2_spec};
use crate::flip::{bit_mask, flip_spec};

verus! {

/// Every byte of a block is subsumed by its OR checksum.
proof fn lemma_or_covers(s: Seq<u8>, i: int)
    requires
        0 <= i < s.len(),
    ensures
        or_spec(s) | s[i] == or_spec(s),
    decreases s.len(),
{
    let d = or_spec(s.drop_last());
    let l = s.last();
    if i == s.len() - 1 {
        assert((d | l) | l == d | l) by (bit_vector);
    } else {
        lemma_or_covers(s.drop_last(), i);
        let x = s[i];
        assert((d | l) | x == d | l) by (bit_vector)
            requires
                d | x == d,
        ;
    }
}

/// The AND checksum of a block has no bit that one of its bytes lacks.
proof fn lemma_and_within(s: Seq<u8>, i: int)
    requires
        0 <= i < s.len(),
    ensures
        and_spec(s) & s[i] == and_spec(s),
    decreases s.len(),
{
    let d = and_spec(s.drop_last());
    let l = s.last();
    if i == s.len() - 1 {
        assert((d & l) & l == d & l) by (bit_vector);
    } else {
        lemma_and_within(s.drop_last(), i);
        let x = s[i];
        assert((d & l) & x == d & l) by (bit_vector)
            requires
                d & x == d,
        ;
    }
}

/// Where bits `p` and `p + 1` lie in two bytes, `p` is the top bit of the first
/// and `p + 1` the low bit of the second.
proof fn lemma_straddle_masks(p: nat)
    requires
        p / 8 != (p + 1) / 8,
    ensures
        (p + 1) / 8 == p / 8 + 1,
        bit_mask(p) == 0x80u8,
        bit_mask(p + 1) == 1u8,
{
    assert(p % 8 == 7);
    assert(1u8 << 7u8 == 0x80u8) by (bit_vector);
    assert(1u8 << 0u8 == 1u8) by (bit_vector);
}

/// In a block of at least two bytes that are all 0xFF, no adjacent two-bit
/// corruption changes the OR checksum.
pub proof fn lemma_or_misses_in_all_ones(s: Seq<u8>, p: nat)
    requires
        s.len() >= 2,
        forall|k: int| 0 <= k < s.len() ==> s[k] == 0xFFu8,
        p + 1 < 8 * s.len(),
    ensures
        or_spec(flip2_spec(s, p)) == or_spec(s),
{
    let t = flip2_spec(s, p);
    let a = (p / 8) as int;
    let b = ((p + 1) / 8) as int;
    let o = or_spec(s);
    lemma_or_covers(s, 0);
    assert(o == 0xFFu8) by (bit_vector)
        requires
            o | 0xFFu8 == o,
    ;
    let ot = or_spec(t);
    if a == b {
        let j: int = if a == 0 { 1 } else { 0 };
        assert(t[j] == 0xFFu8);
        lemma_or_covers(t, j);
        assert(ot == 0xFFu8) by (bit_vector)
            requires
                ot | 0xFFu8 == ot,
        ;
    } else {
        lemma_straddle_masks(p);
        assert(t[a] == 0xFFu8 ^ 0x80u8);
        assert(t[b] == 0xFFu8 ^ 1u8);
        lemma_or_covers(t, a);
        lemma_or_covers(t, b);
        let x = t[a];
        let y = t[b];
        assert(ot == 0xFFu8) by (bit_vector)
            requires
                ot | x == ot,
                ot | y == ot,
                x == 0xFFu8 ^ 0x80u8,
                y == 0xFFu8 ^ 1u8,
        ;
    }
}

/// In a block of at least two bytes that are all 0, no adjacent two-bit
/// corruption changes the AND checksum.
pub proof fn lemma_and_misses_in_all_zeros(s: Seq<u8>, p: nat)
    requires
        s.len() >= 2,
        forall|k: int| 0 <= k < s.len() ==> s[k] == 0u8,
        p + 1 < 8 * s.len(),
    ensures
        and_spec(flip2_spec(s, p)) == and_spec(s),
{
    let t = flip2_spec(s, p);
    let a = (p / 8) as int;
    let b = ((p + 1) / 8) as int;
    let n = and_spec(s);
    lemma_and_within(s, 0);
    assert(n == 0u8) by (bit_vector)
        requires
            n & 0u8 == n,
    ;
    let nt = and_spec(t);
    if a == b {
        let j: int = if a == 0 { 1 } else { 0 };
        assert(t[j] == 0u8);
        lemma_and_within(t, j);
        assert(nt == 0u8) by (bit_vector)
            requires
                nt & 0u8 == nt,
        ;
    } else {
        lemma_straddle_masks(p);
        assert(t[a] == 0u8 ^ 0x80u8);
        assert(t[b] == 0u8 ^ 1u8);
        lemma_and_within(t, a);
        lemma_and_within(t, b);
        let x = t[a];
        let y = t[b];
        assert(nt == 0u8) by (bit_vector)
            requires
                nt & x == nt,
                nt & y == nt,
                x == 0u8 ^ 0x80u8,
                y == 0u8 ^ 1u8,
        ;
    }
}

/// Over an all-ones block of at least two bytes, the OR checksum detects none of
/// the adjacent two-bit corruptions at start positions `0 .. n`.
pub proof fn lemma_or_detects_none_in_all_ones(s: Seq<u8>, n: nat)
    requires
        s.len() >= 2,
        forall|k: int| 0 <= k < s.len() ==> s[k] == 0xFFu8,
        n <= 8 * s.len() - 1,
    ensures
        detected_in_block(Algorithm::Or, s, n) == 0,
    decreases n,
{
    if n > 0 {
        lemma_or_detects_none_in_all_ones(s, (n - 1) as nat);
        lemma_or_misses_in_all_ones(s, (n - 1) as nat);
    }
}

/// Over an all-zeros block of at least two bytes, the AND checksum detects none
/// of the adjacent two-bit corruptions at start positions `0 .. n`.
pub proof fn lemma_and_detects_none_in_all_zeros(s: Seq<u8>, n: nat)
    requires
        s.len() >= 2,
        forall|k: int| 0 <= k < s.len() ==> s[k] == 0u8,
        n <= 8 * s.len() - 1,
    ensures
        detected_in_block(Algorithm::And, s, n) == 0,
    decreases n,
{
    if n > 0 {
        lemma_and_detects_none_in_all_zeros(s, (n - 1) as nat);
        lemma_and_misses_in_all_zeros(s, (n - 1) as nat);
    }
}

/// Toggling the same bit position in two different bytes cancels in the XOR
/// checksum: such a corruption goes undetected by XOR.
pub proof fn lemma_xor_misses_cancelling_flips(s: Seq<u8>, p: nat)
    requires
        (p + 8) / 8 < s.len(),
    ensures
        xor_spec(flip_spec(flip_spec(s, p), p + 8)) == xor_spec(s),
{
    let m = bit_mask(p);
    assert(bit_mask(p + 8) == m);
    let t = flip_spec(s, p);
    lemma_xor_update(s, (p / 8) as int, m);
    lemma_xor_update(t, ((p + 8) / 8) as int, m);
    let x = xor_spec(s);
    assert((x ^ m) ^ m == x) by (bit_vector);
}

} // verus!
