//! Arithmetic and bitwise one-byte checksums over a block of bytes.
use vstd::prelude::*;
use vstd::arithmetic::div_mod::{
    lemma_add_mod_noop,
    lemma_mod_add_multiples_vanish,
    lemma_mul_mod_noop_left,
    lemma_sub_mod_noop,
};

verus! {

/// The sum of all byte values, as an unbounded integer.
pub open spec fn seq_sum(s: Seq<u8>) -> int
    decreases s.len(),
{
    if s.len() == 0 {
        0
    } else {
        seq_sum(s.drop_last()) + s.last() as int
    }
}

/// The product of all byte values, as an unbounded integer (1 for no bytes).
pub open spec fn seq_product(s: Seq<u8>) -> int
    decreases s.len(),
{
    if s.len() == 0 {
        1
    } else {
        seq_product(s.drop_last()) * s.last() as int
    }
}

/// Sum checksum: the sum of all bytes modulo 256.
pub open spec fn sum_spec(s: Seq<u8>) -> u8 {
    (seq_sum(s) % 256) as u8
}

/// Subtract checksum: the first byte minus every later byte, modulo 256.
pub open spec fn sub_spec(s: Seq<u8>) -> u8
    recommends
        s.len() > 0,
{
    ((s[0] as int - seq_sum(s.skip(1))) % 256) as u8
}

/// Multiply checksum: the product of all bytes modulo 256.
pub open spec fn mul_spec(s: Seq<u8>) -> u8 {
    (seq_product(s) % 256) as u8
}

/// AND checksum: bitwise AND of all bytes, seeded with 0xFF.
pub open spec fn and_spec(s: Seq<u8>) -> u8
    decreases s.len(),
{
    if s.len() == 0 {
        0xFFu8
    } else {
        and_spec(s.drop_last()) & s.last()
    }
}

/// OR checksum: bitwise OR of all bytes, seeded with 0.
pub open spec fn or_spec(s: Seq<u8>) -> u8
    decreases s.len(),
{
    if s.len() == 0 {
        0u8
    } else {
        or_spec(s.drop_last()) | s.last()
    }
}

/// XOR checksum: bitwise XOR of all bytes, seeded with 0.
pub open spec fn xor_spec(s: Seq<u8>) -> u8
    decreases s.len(),
{
    if s.len() == 0 {
        0u8
    } else {
        xor_spec(s.drop_last()) ^ s.last()
    }
}

/// XNOR checksum: the bitwise complement of the XOR checksum.
pub open spec fn xnor_spec(s: Seq<u8>) -> u8 {
    !xor_spec(s)
}

/// Combined checksum: `Sum ^ XOR ^ ((AND + OR) mod 256)`.
pub open spec fn combined_spec(s: Seq<u8>) -> u8 {
    sum_spec(s) ^ xor_spec(s) ^ (((and_spec(s) as int + or_spec(s) as int) % 256) as u8)
}

proof fn lemma_take_step(s: Seq<u8>, i: int)
    requires
        0 <= i < s.len(),
    ensures
        s.take(i + 1).drop_last() == s.take(i),
        s.take(i + 1).last() == s[i],
{
    assert(s.take(i + 1).drop_last() =~= s.take(i));
}

/// Sum of all bytes, truncated to the low eight bits.
pub fn checksum_sum(block: &[u8]) -> (r: u8)
    ensures
        r == sum_spec(block@),
{
    let mut acc: u16 = 0;
    let mut i: usize = 0;
    while i < block.len()
        invariant
            i <= block.len(),
            acc < 256,
            acc == seq_sum(block@.take(i as int)) % 256,
        decreases block.len() - i,
    {
        let v = block[i];
        proof {
            lemma_take_step(block@, i as int);
            lemma_add_mod_noop(seq_sum(block@.take(i as int)), v as int, 256);
        }
        acc = (acc + v as u16) % 256;
        i += 1;
    }
    assert(block@.take(block.len() as int) =~= block@);
    acc as u8
}

/// First byte minus every later byte, in two's complement, truncated to eight bits.
pub fn checksum_sub(block: &[u8]) -> (r: u8)
    requires
        block@.len() > 0,
    ensures
        r == sub_spec(block@),
{
    let mut acc: u16 = block[0] as u16;
    let mut i: usize = 1;
    assert(block@.subrange(1, 1) =~= Seq::<u8>::empty());
    while i < block.len()
        invariant
            1 <= i <= block.len(),
            acc < 256,
            acc == (block@[0] as int - seq_sum(block@.subrange(1, i as int))) % 256,
        decreases block.len() - i,
    {
        let v = block[i];
        proof {
            let x = block@[0] as int - seq_sum(block@.subrange(1, i as int));
            assert(block@.subrange(1, i + 1).drop_last() =~= block@.subrange(1, i as int));
            lemma_sub_mod_noop(x, v as int, 256);
            lemma_mod_add_multiples_vanish(x % 256 - v as int, 256);
        }
        acc = (acc + 256 - v as u16) % 256;
        i += 1;
    }
    assert(block@.subrange(1, block.len() as int) =~= block@.skip(1));
    acc as u8
}

/// Product of all bytes modulo 256, starting from 1.
pub fn checksum_mul(block: &[u8]) -> (r: u8)
    ensures
        r == mul_spec(block@),
{
    let mut acc: u16 = 1;
    let mut i: usize = 0;
    while i < block.len()
        invariant
            i <= block.len(),
            acc < 256,
            acc == seq_product(block@.take(i as int)) % 256,
        decreases block.len() - i,
    {
        let v = block[i];
        proof {
            lemma_take_step(block@, i as int);
            lemma_mul_mod_noop_left(seq_product(block@.take(i as int)), v as int, 256);
            assert(acc * v <= 255 * 255) by (nonlinear_arith)
                requires
                    acc < 256,
                    v < 256,
            ;
        }
        acc = (acc * v as u16) % 256;
        i += 1;
    }
    assert(block@.take(block.len() as int) =~= block@);
    acc as u8
}

/// Bitwise AND of all bytes, seeded with 0xFF.
pub fn checksum_and(block: &[u8]) -> (r: u8)
    ensures
        r == and_spec(block@),
{
    let mut acc: u8 = 0xFF;
    let mut i: usize = 0;
    while i < block.len()
        invariant
            i <= block.len(),
            acc == and_spec(block@.take(i as int)),
        decreases block.len() - i,
    {
        proof {
            lemma_take_step(block@, i as int);
        }
        acc = acc & block[i];
        i += 1;
    }
    assert(block@.take(block.len() as int) =~= block@);
    acc
}

/// Bitwise OR of all bytes, seeded with 0.
pub fn checksum_or(block: &[u8]) -> (r: u8)
    ensures
        r == or_spec(block@),
{
    let mut acc: u8 = 0;
    let mut i: usize = 0;
    while i < block.len()
        invariant
            i <= block.len(),
            acc == or_spec(block@.take(i as int)),
        decreases block.len() - i,
    {
        proof {
            lemma_take_step(block@, i as int);
        }
        acc = acc | block[i];
        i += 1;
    }
    assert(block@.take(block.len() as int) =~= block@);
    acc
}

/// Bitwise XOR of all bytes, seeded with 0.
pub fn checksum_xor(block: &[u8]) -> (r: u8)
    ensures
        r == xor_spec(block@),
{
    let mut acc: u8 = 0;
    let mut i: usize = 0;
    while i < block.len()
        invariant
            i <= block.len(),
            acc == xor_spec(block@.take(i as int)),
        decreases block.len() - i,
    {
        proof {
            lemma_take_step(block@, i as int);
        }
        acc = acc ^ block[i];
        i += 1;
    }
    assert(block@.take(block.len() as int) =~= block@);
    acc
}

/// Bitwise complement of the XOR checksum.
pub fn checksum_xnor(block: &[u8]) -> (r: u8)
    ensures
        r == xnor_spec(block@),
{
    !checksum_xor(block)
}

/// Combination of Sum, XOR, AND and OR: `s ^ x ^ (a + o)`, the addition wrapping.
pub fn checksum_f(block: &[u8]) -> (r: u8)
    ensures
        r == combined_spec(block@),
{
    let s = checksum_sum(block);
    let x = checksum_xor(block);
    let a = checksum_and(block);
    let o = checksum_or(block);
    s ^ x ^ (((a as u16 + o as u16) % 256) as u8)
}

/// The XNOR checksum is 255 minus the XOR checksum, for every block.
pub proof fn lemma_xnor_complement(b: Seq<u8>)
    ensures
        xnor_spec(b) == 255 - xor_spec(b),
{
    let x = xor_spec(b);
    assert(!x == 255 - x) by (bit_vector);
}

/// On a block of one byte, the Sum, Subtract and Multiply checksums all equal that byte.
pub proof fn lemma_single_byte(b: Seq<u8>)
    requires
        b.len() == 1,
    ensures
        sum_spec(b) == b[0],
        sub_spec(b) == b[0],
        mul_spec(b) == b[0],
{
    assert(b.drop_last() =~= Seq::<u8>::empty());
    assert(b.skip(1) =~= Seq::<u8>::empty());
    assert(seq_sum(b.drop_last()) == 0);
    assert(seq_sum(b.skip(1)) == 0);
    assert(seq_product(b.drop_last()) == 1);
    assert(seq_sum(b) == b[0] as int);
    assert(seq_product(b) == b[0] as int);
}

/// Changing one byte by XOR with `m` changes the XOR checksum by XOR with `m`.
pub proof fn lemma_xor_update(s: Seq<u8>, i: int, m: u8)
    requires
        0 <= i < s.len(),
    ensures
        xor_spec(s.update(i, s[i] ^ m)) == xor_spec(s) ^ m,
    decreases s.len(),
{
    let t = s.update(i, s[i] ^ m);
    let d = xor_spec(s.drop_last());
    let l = s.last();
    if i == s.len() - 1 {
        assert(t.drop_last() =~= s.drop_last());
        assert(d ^ (l ^ m) == (d ^ l) ^ m) by (bit_vector);
    } else {
        assert(t.drop_last() =~= s.drop_last().update(i, s[i] ^ m));
        lemma_xor_update(s.drop_last(), i, m);
        assert((d ^ m) ^ l == (d ^ l) ^ m) by (bit_vector);
    }
}

} // verus!
