//! Toggling single bits of a block in place.
use vstd::prelude::*;

verus! {

/// The mask of bit `p mod 8` within its byte.
pub open spec fn bit_mask(p: nat) -> u8 {
    1u8 << ((p % 8) as u8)
}

/// The block `s` with bit `p` toggled: byte `p / 8` is XORed with `1 << (p mod 8)`.
pub open spec fn flip_spec(s: Seq<u8>, p: nat) -> Seq<u8> {
    s.update((p / 8) as int, s[(p / 8) as int] ^ bit_mask(p))
}

/// Toggles bit `bitpos` of `buf`, counting bits from the low bit of byte 0.
pub fn flip_bit(buf: &mut Vec<u8>, bitpos: usize)
    requires
        bitpos / 8 < old(buf)@.len(),
    ensures
        final(buf)@ == flip_spec(old(buf)@, bitpos as nat),
{
    let byte = bitpos / 8;
    let bit = (bitpos % 8) as u8;
    buf[byte] = buf[byte] ^ (1u8 << bit);
}

/// Toggling the same bit twice gives back the block unchanged.
pub proof fn lemma_flip_involution(s: Seq<u8>, p: nat)
    requires
        p / 8 < s.len(),
    ensures
        flip_spec(flip_spec(s, p), p) == s,
{
    let x = s[(p / 8) as int];
    let m = bit_mask(p);
    assert((x ^ m) ^ m == x) by (bit_vector);
    assert(flip_spec(flip_spec(s, p), p) =~= s);
}

/// Toggling two bits gives the same block in either order.
pub proof fn lemma_flip_commute(s: Seq<u8>, p: nat, q: nat)
    requires
        p / 8 < s.len(),
        q / 8 < s.len(),
    ensures
        flip_spec(flip_spec(s, p), q) == flip_spec(flip_spec(s, q), p),
{
    let x = s[(p / 8) as int];
    let a = bit_mask(p);
    let b = bit_mask(q);
    assert((x ^ a) ^ b == (x ^ b) ^ a) by (bit_vector);
    assert(flip_spec(flip_spec(s, p), q) =~= flip_spec(flip_spec(s, q), p));
}

} // verus!
