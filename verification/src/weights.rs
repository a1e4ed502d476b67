//! Execution-cost model of the operations.
//!
//! The surrounding deployment charges every operation a weight before
//! sequencing it, derived from a base cost and the operation's storage
//! footprint. The engine itself does no fee accounting, so the model
//! here records those figures as plain numbers: a base cost in
//! picoseconds and the storage reads and writes the operation performs.
//! The batch figure scales linearly with the number of entries.

use vstd::prelude::*;

verus! {

/// The declared cost of one operation.
#[derive(Clone, Copy, Debug, PartialEq, Eq, Structural)]
pub struct OperationWeight {
    /// Base execution cost, in picoseconds.
    pub base_ps: u64,
    /// Storage reads the operation performs.
    pub reads: u64,
    /// Storage writes the operation performs.
    pub writes: u64,
}

/// The default cost figures, pending measured replacements.
pub struct SubstrateWeight;

impl SubstrateWeight {
    /// Recording energy: read both energy totals and the device-count
    /// test, write both totals and possibly the count.
    pub fn record_energy() -> (w: OperationWeight)
        ensures
            w == (OperationWeight { base_ps: 40_000_000, reads: 3, writes: 3 }),
    {
        OperationWeight { base_ps: 40_000_000, reads: 3, writes: 3 }
    }

    /// Claiming credits: read the pending energy and the factor, write
    /// the balance, both aggregates, the issuance count and the reset.
    pub fn claim_credits() -> (w: OperationWeight)
        ensures
            w == (OperationWeight { base_ps: 60_000_000, reads: 2, writes: 5 }),
    {
        OperationWeight { base_ps: 60_000_000, reads: 2, writes: 5 }
    }

    /// Transferring credits: read the source balance, write both.
    pub fn transfer_credits() -> (w: OperationWeight)
        ensures
            w == (OperationWeight { base_ps: 35_000_000, reads: 1, writes: 2 }),
    {
        OperationWeight { base_ps: 35_000_000, reads: 1, writes: 2 }
    }

    /// Withdrawing credits: read the device balance, write it and the
    /// account balance.
    pub fn withdraw_credits() -> (w: OperationWeight)
        ensures
            w == (OperationWeight { base_ps: 35_000_000, reads: 1, writes: 2 }),
    {
        OperationWeight { base_ps: 35_000_000, reads: 1, writes: 2 }
    }

    /// Setting the emission factor: read and write the one value.
    pub fn set_emission_factor() -> (w: OperationWeight)
        ensures
            w == (OperationWeight { base_ps: 15_000_000, reads: 1, writes: 1 }),
    {
        OperationWeight { base_ps: 15_000_000, reads: 1, writes: 1 }
    }

    /// Submitting one proof: read the count and the duplicate index,
    /// write the record, the block index, both counters and the latest
    /// height.
    pub fn submit_proof() -> (w: OperationWeight)
        ensures
            w == (OperationWeight { base_ps: 50_000_000, reads: 2, writes: 5 }),
    {
        OperationWeight { base_ps: 50_000_000, reads: 2, writes: 5 }
    }

    /// Submitting a batch of `n` proofs: a base cost plus the
    /// single-submission footprint for each entry.
    pub fn submit_batch_proofs(n: u32) -> (w: OperationWeight)
        ensures
            w.base_ps == 20_000_000 + 40_000_000 * (n as int),
            w.reads == 2 * (n as int),
            w.writes == 5 * (n as int),
    {
        OperationWeight {
            base_ps: 20_000_000u64 + 40_000_000u64 * (n as u64),
            reads: 2u64 * (n as u64),
            writes: 5u64 * (n as u64),
        }
    }

    /// Verifying a proof: in the worst case the scan reads the count
    /// and every stored record of the device.
    pub fn verify_proof() -> (w: OperationWeight)
        ensures
            w == (OperationWeight { base_ps: 100_000_000, reads: 1001, writes: 0 }),
    {
        OperationWeight { base_ps: 100_000_000, reads: 1001, writes: 0 }
    }
}

} // verus!
