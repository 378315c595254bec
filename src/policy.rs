//! Protocol constants and the block-number arithmetic derived from them.

use vstd::prelude::*;

verus! {

/// The only block version this node accepts.
pub const VERSION: u16 = 1;

/// Number of blocks in a batch; the last block of every batch is a macro block.
pub const BATCH_LENGTH: u32 = 32;

/// Number of batches in an epoch; the last macro block of an epoch is an election block.
pub const BATCHES_PER_EPOCH: u32 = 4;

/// Number of blocks in an epoch.
pub const EPOCH_LENGTH: u32 = BATCH_LENGTH * BATCHES_PER_EPOCH;

/// How far (in milliseconds) a block timestamp may lie ahead of the local clock.
pub const TIMESTAMP_MAX_DRIFT: u64 = 600_000;

/// Largest serialized size (in bytes) of a micro block body.
pub const MAX_SIZE_MICRO_BODY: usize = 100_000;

/// Number of blocks during which a transaction stays includable after its validity start.
pub const TRANSACTION_VALIDITY_WINDOW: u32 = 7_200;

/// The epoch that block `n` belongs to: epoch `k` holds blocks `(k-1)*EPOCH_LENGTH+1 ..= k*EPOCH_LENGTH`.
pub open spec fn spec_epoch_at(n: int) -> int {
    (n + EPOCH_LENGTH - 1) / (EPOCH_LENGTH as int)
}

/// Block `n` closes a batch.
pub open spec fn spec_is_macro_block_at(n: int) -> bool {
    n % (BATCH_LENGTH as int) == 0
}

/// Block `n` closes an epoch and elects the next validators.
pub open spec fn spec_is_election_block_at(n: int) -> bool {
    n % (EPOCH_LENGTH as int) == 0
}

pub fn epoch_at(block_number: u32) -> (r: u32)
    ensures
        r == spec_epoch_at(block_number as int),
{
    let q = block_number / EPOCH_LENGTH;
    if block_number % EPOCH_LENGTH == 0 {
        q
    } else {
        q + 1
    }
}

pub fn is_macro_block_at(block_number: u32) -> (r: bool)
    ensures
        r == spec_is_macro_block_at(block_number as int),
{
    block_number % BATCH_LENGTH == 0
}

pub fn is_election_block_at(block_number: u32) -> (r: bool)
    ensures
        r == spec_is_election_block_at(block_number as int),
{
    block_number % EPOCH_LENGTH == 0
}

} // verus!
