//! The protocol epoch of a mined block. The first epochs were longer;
//! after the hard fork each epoch spans fewer blocks.

use vstd::prelude::*;

verus! {

/// How many epochs passed before the hard fork.
pub const PRE_FORK_EPOCHS: u64 = 15;

/// How many blocks one epoch spanned before the hard fork.
pub const PRE_FORK_EPOCH_SPAN: u64 = 2016;

/// How many blocks one epoch spans after the hard fork.
pub const POST_FORK_EPOCH_SPAN: u64 = 504;

/// The epoch a block number falls in: epochs count from 1, the first
/// pre-fork spans cover the blocks up to the fork, and the shorter post-fork
/// spans cover the rest.
pub open spec fn spec_epoch(block_number: u64) -> int {
    if block_number <= PRE_FORK_EPOCHS * PRE_FORK_EPOCH_SPAN {
        (block_number as int) / (PRE_FORK_EPOCH_SPAN as int) + 1
    } else {
        (block_number - PRE_FORK_EPOCHS * PRE_FORK_EPOCH_SPAN) / (POST_FORK_EPOCH_SPAN as int)
            + (PRE_FORK_EPOCHS as int) + 1
    }
}

/// Computes the epoch a block number falls in.
pub fn calculate_epoch(block_number: u64) -> (r: u64)
    ensures
        r == spec_epoch(block_number),
{
    if block_number <= PRE_FORK_EPOCHS * PRE_FORK_EPOCH_SPAN {
        block_number / PRE_FORK_EPOCH_SPAN + 1
    } else {
        (block_number - PRE_FORK_EPOCHS * PRE_FORK_EPOCH_SPAN) / POST_FORK_EPOCH_SPAN
            + PRE_FORK_EPOCHS + 1
    }
}

} // verus!
