//! Failure taxonomy of the ledger and accounting engine.
//!
//! Every operation returns a typed error and performs no mutation when it
//! fails; nothing here is fatal to the caller. Batch proof submission is
//! the one lenient path: per-entry failures are dropped silently and only
//! the structural errors (`EmptyBatch`, `BatchTooLarge`) fail the call.

use vstd::prelude::*;

verus! {

/// Errors of the proof ledger.
#[derive(Clone, Copy, Debug, PartialEq, Eq, Structural)]
pub enum ProofError {
    /// Device identifier exceeds the maximum length.
    DeviceIdTooLong,
    /// Proof commitment exceeds the maximum length.
    ProofTooLong,
    /// The reported window does not satisfy `window_start < window_end`.
    InvalidTimeWindow,
    /// A proof for this device already exists at the current block height.
    ProofAlreadyExists,
    /// The device has reached its proof-count cap.
    MaxProofsExceeded,
    /// The batch holds more entries than allowed.
    BatchTooLarge,
    /// The batch holds no entries.
    EmptyBatch,
}

/// Errors of the credit accounting engine.
#[derive(Clone, Copy, Debug, PartialEq, Eq, Structural)]
pub enum CreditError {
    /// Device identifier exceeds the maximum length.
    DeviceIdTooLong,
    /// No pending energy, or the pending energy converts to zero credits.
    NoCreditsAvailable,
    /// The source balance does not cover the requested amount.
    InsufficientCredits,
    /// A checked division failed. The engine divides only by nonzero
    /// constants, so its operations are proved never to return this.
    Overflow,
    /// Pending energy is below the minimum claimable amount.
    EnergyBelowMinimum,
    /// A transfer names the same device on both sides.
    SameDeviceTransfer,
    /// The emission factor must be positive.
    InvalidEmissionFactor,
    /// The actor lacks the privilege this operation demands.
    NotAuthorized,
}

/// Reasons for rejecting a submission from the pending pool.
#[derive(Clone, Copy, Debug, PartialEq, Eq, Structural)]
pub enum AdmissionError {
    /// The submission came from a source that may not place unsigned
    /// submissions in the pool.
    UntrustedSource,
    /// Device identifier exceeds the maximum length.
    DeviceIdTooLong,
    /// Proof commitment exceeds the maximum length.
    ProofTooLong,
    /// The reported window does not satisfy `window_start < window_end`.
    InvalidTimeWindow,
    /// The batch holds no entries.
    EmptyBatch,
    /// The batch holds more entries than allowed.
    BatchTooLarge,
}

} // verus!
