//! Exhaustive sweep of adjacent two-bit corruptions, counting those a checksum detects.
use vstd::prelude::*;
use crate::algorithm::{checksum, checksum_spec, Algorithm};
use crate::block::{block_spec, build_block};
use crate::flip::{flip_bit, flip_spec, lemma_flip_commute, lemma_flip_involution};

verus! {

/// The block `s` with bits `p` and `p + 1` toggled.
pub open spec fn flip2_spec(s: Seq<u8>, p: nat) -> Seq<u8> {
    flip_spec(flip_spec(s, p), p + 1)
}

/// Whether toggling bits `p` and `p + 1` of `s` changes the checksum `alg` gives.
pub open spec fn detects(alg: Algorithm, s: Seq<u8>, p: nat) -> bool {
    checksum_spec(alg, flip2_spec(s, p)) != checksum_spec(alg, s)
}

/// How many of the start positions `0 .. n` give a corruption of `s` that `alg` detects.
pub open spec fn detected_in_block(alg: Algorithm, s: Seq<u8>, n: nat) -> nat
    decreases n,
{
    if n == 0 {
        0
    } else {
        detected_in_block(alg, s, (n - 1) as nat) + if detects(alg, s, (n - 1) as nat) {
            1nat
        } else {
            0nat
        }
    }
}

/// Start positions of an adjacent pair inside a block of `size` bytes: `8 * size - 1`.
pub open spec fn positions(size: nat) -> nat {
    (8 * size - 1) as nat
}

/// Detected corruptions over blocks `0 .. nb` of `data`, every start position of each.
pub open spec fn detected_in_blocks(alg: Algorithm, data: Seq<u8>, size: nat, nb: nat) -> nat
    decreases nb,
{
    if nb == 0 {
        0
    } else {
        detected_in_blocks(alg, data, size, (nb - 1) as nat) + detected_in_block(
            alg,
            block_spec(data, size, (nb - 1) as nat),
            positions(size),
        )
    }
}

/// Result of a sweep: of `total` corruptions tried, `detected` changed the checksum.
#[derive(Clone, Copy, Debug, PartialEq, Eq, Structural)]
pub struct CoverageRecord {
    pub algorithm: Algorithm,
    pub detected: u64,
    pub total: u64,
}

/// Toggling bits `p`, `p + 1` again after an adjacent two-bit corruption restores the block.
pub proof fn lemma_restore(s: Seq<u8>, p: nat)
    requires
        (p + 1) / 8 < s.len(),
    ensures
        flip_spec(flip_spec(flip2_spec(s, p), p), p + 1) == s,
{
    let y = flip_spec(s, p);
    lemma_flip_commute(y, p + 1, p);
    lemma_flip_involution(s, p);
    lemma_flip_involution(s, p + 1);
}

/// Counts, over blocks `0 .. num_blocks` of `data` and every start position `p` in
/// `0 ..= 8 * block_size - 2`, the corruptions toggling bits `p` and `p + 1` that
/// change the checksum `alg` gives for the block.
pub fn detection_coverage_adjacent_2bit(
    data: &[u8],
    alg: Algorithm,
    num_blocks: usize,
    block_size: usize,
) -> (r: CoverageRecord)
    requires
        0 < block_size <= data@.len(),
        8 * block_size <= usize::MAX,
        num_blocks * block_size <= usize::MAX,
        num_blocks * (8 * block_size - 1) <= u64::MAX,
    ensures
        r.algorithm == alg,
        r.total == num_blocks * positions(block_size as nat),
        r.detected == detected_in_blocks(alg, data@, block_size as nat, num_blocks as nat),
        r.detected <= r.total,
{
    let total_bits: usize = block_size * 8;
    let mut detected: u64 = 0;
    let mut total: u64 = 0;
    let mut block_idx: usize = 0;
    while block_idx < num_blocks
        invariant
            0 < block_size <= data@.len(),
            total_bits == 8 * block_size,
            num_blocks * block_size <= usize::MAX,
            num_blocks * (8 * block_size - 1) <= u64::MAX,
            block_idx <= num_blocks,
            total == block_idx * positions(block_size as nat),
            detected == detected_in_blocks(alg, data@, block_size as nat, block_idx as nat),
            detected <= total,
        decreases num_blocks - block_idx,
    {
        proof {
            assert((block_idx + 1) * block_size <= num_blocks * block_size) by (nonlinear_arith)
                requires
                    block_idx < num_blocks,
            ;
        }
        let block = build_block(data, block_idx, block_size);
        let c = checksum(alg, block.as_slice());
        let mut corrupted = block.clone();
        assert(corrupted@ == block@);
        let ghost s = block@;
        let ghost detected0 = detected as nat;
        let ghost total0 = total as nat;
        let mut p: usize = 0;
        while p < total_bits - 1
            invariant
                0 < block_size,
                total_bits == 8 * block_size,
                s.len() == block_size,
                s == block_spec(data@, block_size as nat, block_idx as nat),
                c == checksum_spec(alg, s),
                corrupted@ == s,
                p <= total_bits - 1,
                total == total0 + p,
                detected == detected0 + detected_in_block(alg, s, p as nat),
                detected <= total,
                total0 == block_idx * positions(block_size as nat),
                block_idx < num_blocks,
                num_blocks * (8 * block_size - 1) <= u64::MAX,
            decreases total_bits - 1 - p,
        {
            proof {
                assert(block_idx * (8 * block_size - 1) + p < num_blocks * (8 * block_size - 1))
                    by (nonlinear_arith)
                    requires
                        block_idx < num_blocks,
                        p < 8 * block_size - 1,
                ;
            }
            flip_bit(&mut corrupted, p);
            flip_bit(&mut corrupted, p + 1);
            let c2 = checksum(alg, corrupted.as_slice());
            if c2 != c {
                detected += 1;
            }
            total += 1;
            flip_bit(&mut corrupted, p);
            flip_bit(&mut corrupted, p + 1);
            proof {
                lemma_restore(s, p as nat);
            }
            p += 1;
        }
        proof {
            assert(block_idx * positions(block_size as nat) + positions(block_size as nat) == (
            block_idx + 1) * positions(block_size as nat)) by (nonlinear_arith);
        }
        block_idx += 1;
    }
    CoverageRecord { algorithm: alg, detected, total }
}

} // verus!
