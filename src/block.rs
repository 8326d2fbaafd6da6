//! Carving fixed-size blocks out of a source buffer, wrapping around its end.
use vstd::prelude::*;

verus! {

/// Number of blocks evaluated in a run.
pub const NUM_BLOCKS: usize = 10000;

/// Rows of a block.
pub const BLOCK_ROWS: usize = 8;

/// Columns of a block.
pub const BLOCK_COLS: usize = 16;

/// Bytes in a block.
pub const BLOCK_SIZE: usize = BLOCK_ROWS * BLOCK_COLS;

/// Block `idx` of `size` bytes: byte `k` is `data[(idx * size + k) mod len(data)]`.
pub open spec fn block_spec(data: Seq<u8>, size: nat, idx: nat) -> Seq<u8> {
    Seq::new(size, |k: int| data[(idx * size + k) % (data.len() as int)])
}

/// The source buffer cannot supply a single block.
#[derive(Clone, Copy, Debug, PartialEq, Eq, Structural)]
pub enum SourceError {
    TooSmall,
}

/// Accepts a source buffer exactly when it holds at least one block of `block_size` bytes.
pub fn check_source(data: &[u8], block_size: usize) -> (r: Result<(), SourceError>)
    ensures
        r is Ok <==> data@.len() >= block_size,
        r is Err ==> r == Err::<(), SourceError>(SourceError::TooSmall),
{
    if data.len() < block_size {
        Err(SourceError::TooSmall)
    } else {
        Ok(())
    }
}

/// Builds block `block_idx` of `block_size` bytes out of `data`, wrapping around its end.
pub fn build_block(data: &[u8], block_idx: usize, block_size: usize) -> (r: Vec<u8>)
    requires
        0 < block_size <= data@.len(),
        (block_idx + 1) * block_size <= usize::MAX,
    ensures
        r@ == block_spec(data@, block_size as nat, block_idx as nat),
{
    let data_len = data.len();
    let mut block: Vec<u8> = Vec::with_capacity(block_size);
    proof {
        assert(block_idx * block_size + block_size == (block_idx + 1) * block_size)
            by (nonlinear_arith);
    }
    let base: usize = block_idx * block_size;
    let mut i: usize = 0;
    while i < block_size
        invariant
            0 < block_size <= data@.len() == data_len,
            base == block_idx * block_size,
            base + block_size <= usize::MAX,
            i <= block_size,
            block@.len() == i,
            forall|k: int|
                0 <= k < i ==> block@[k] == data@[(block_idx * block_size + k) % (data_len as int)],
        decreases block_size - i,
    {
        let idx = (base + i) % data_len;
        block.push(data[idx]);
        i += 1;
    }
    assert(block@ =~= block_spec(data@, block_size as nat, block_idx as nat));
    block
}

} // verus!
