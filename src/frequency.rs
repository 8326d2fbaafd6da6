//! Occurrence counts of each digest byte over the blocks of a source buffer.
use vstd::prelude::*;
use crate::algorithm::{checksum, checksum_spec, Algorithm};
use crate::block::{block_spec, build_block};

verus! {

/// How many of blocks `0 .. nb` of `data` get digest byte `v` from `alg`.
pub open spec fn frequency_count(alg: Algorithm, data: Seq<u8>, size: nat, nb: nat, v: u8) -> nat
    decreases nb,
{
    if nb == 0 {
        0
    } else {
        frequency_count(alg, data, size, (nb - 1) as nat, v) + if checksum_spec(
            alg,
            block_spec(data, size, (nb - 1) as nat),
        ) == v {
            1nat
        } else {
            0nat
        }
    }
}

/// Runs `alg` once over each of blocks `0 .. num_blocks` and counts, for each of the
/// 256 digest byte values, the blocks that give it.
pub fn frequency_table(data: &[u8], alg: Algorithm, num_blocks: usize, block_size: usize) -> (r:
    Vec<u32>)
    requires
        0 < block_size <= data@.len(),
        num_blocks * block_size <= usize::MAX,
        num_blocks <= u32::MAX,
    ensures
        r@.len() == 256,
        forall|v: u8|
            #[trigger] r@[v as int] == frequency_count(
                alg,
                data@,
                block_size as nat,
                num_blocks as nat,
                v,
            ),
{
    let mut table: Vec<u32> = vec![0u32; 256];
    let mut block_idx: usize = 0;
    while block_idx < num_blocks
        invariant
            0 < block_size <= data@.len(),
            num_blocks * block_size <= usize::MAX,
            num_blocks <= u32::MAX,
            block_idx <= num_blocks,
            table@.len() == 256,
            forall|v: u8|
                #[trigger] table@[v as int] == frequency_count(
                    alg,
                    data@,
                    block_size as nat,
                    block_idx as nat,
                    v,
                ),
            forall|v: u8| #[trigger] table@[v as int] <= block_idx,
        decreases num_blocks - block_idx,
    {
        proof {
            assert((block_idx + 1) * block_size <= num_blocks * block_size) by (nonlinear_arith)
                requires
                    block_idx < num_blocks,
            ;
        }
        let block = build_block(data, block_idx, block_size);
        let c = checksum(alg, block.as_slice());
        let ghost prev = table@;
        assert(prev[c as int] <= block_idx);
        table[c as usize] = table[c as usize] + 1;
        proof {
            assert forall|v: u8|
                #[trigger] table@[v as int] == frequency_count(
                    alg,
                    data@,
                    block_size as nat,
                    (block_idx + 1) as nat,
                    v,
                ) && table@[v as int] <= block_idx + 1 by {
                assert(prev[v as int] == frequency_count(
                    alg,
                    data@,
                    block_size as nat,
                    block_idx as nat,
                    v,
                ));
                assert(prev[v as int] <= block_idx);
            }
        }
        block_idx += 1;
    }
    table
}

} // verus!
