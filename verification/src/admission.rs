//! The admission predicate for unauthenticated submissions.
//!
//! Before a submission is handed to the external sequencer it passes
//! this stateless check, which never reads or writes the ledger:
//! duplicate and cap rules are re-verified at apply time by the proof
//! ledger, which is the sole authority. The predicate is a pure
//! function, so admitting the same submission any number of times gives
//! the same answer.
//!
//! An accepted submission receives a fixed priority, a short validity
//! window in blocks after which the external pool drops it, a
//! deduplication tag so the same proof cannot occupy the pool twice
//! concurrently, and is marked as not to be relayed to peers.

use vstd::prelude::*;

use crate::errors::AdmissionError;
use crate::ident::{append_bytes, clone_bytes, MAX_DEVICE_ID_LENGTH, MAX_PROOF_LENGTH};
use crate::proofs::{ProofSubmission, MAX_BATCH_SIZE};

verus! {

/// Priority every admitted proof submission receives.
pub const PROOF_SUBMISSION_PRIORITY: u64 = 100;

/// Blocks an admitted submission stays valid in the pending pool.
pub const PROOF_SUBMISSION_LONGEVITY: u64 = 5;

/// Where a submission reached this node from.
#[derive(Clone, Copy, Debug, PartialEq, Eq, Structural)]
pub enum SubmissionSource {
    /// Produced by this node itself.
    Local,
    /// Re-validated from an already sequenced block.
    InBlock,
    /// Received from a peer.
    External,
}

/// The pool parameters an accepted submission is admitted under.
pub struct Admission {
    /// Ordering priority in the pending pool.
    pub priority: u64,
    /// Blocks the submission stays valid before the pool drops it.
    pub longevity: u64,
    /// Whether the submission may be relayed to peers; always false
    /// here.
    pub propagate: bool,
    /// Deduplication tag: two submissions with the same tag cannot
    /// occupy the pool at the same time.
    pub dedup_tag: Vec<u8>,
}

/// The deduplication tag for a device identifier and a commitment:
/// their concatenation. The tag is deliberately cheap; distinct pairs
/// whose concatenations coincide share a tag, which only delays one of
/// them in the pool.
pub open spec fn spec_dedup_tag(d: Seq<u8>, h: Seq<u8>) -> Seq<u8> {
    d + h
}

/// Why a single submission is rejected, if at all: untrusted sources
/// first, then the same length and window checks the ledger applies.
pub open spec fn spec_admit_error(
    source: SubmissionSource,
    sub: crate::proofs::SubmissionV,
) -> Option<AdmissionError> {
    if source is External {
        Some(AdmissionError::UntrustedSource)
    } else if sub.device_id.len() > MAX_DEVICE_ID_LENGTH {
        Some(AdmissionError::DeviceIdTooLong)
    } else if sub.proof_hash.len() > MAX_PROOF_LENGTH {
        Some(AdmissionError::ProofTooLong)
    } else if sub.window_start >= sub.window_end {
        Some(AdmissionError::InvalidTimeWindow)
    } else {
        None
    }
}

/// Why a batch submission is rejected, if at all: untrusted sources,
/// then the structural bounds. Per-entry validity is left to apply
/// time, where invalid entries are dropped silently.
pub open spec fn spec_admit_batch_error(
    source: SubmissionSource,
    entries: Seq<crate::proofs::SubmissionV>,
) -> Option<AdmissionError> {
    if source is External {
        Some(AdmissionError::UntrustedSource)
    } else if entries.len() == 0 {
        Some(AdmissionError::EmptyBatch)
    } else if entries.len() > MAX_BATCH_SIZE {
        Some(AdmissionError::BatchTooLarge)
    } else {
        None
    }
}

/// Build the deduplication tag for a device identifier and commitment.
fn make_tag(device_id: &Vec<u8>, proof_hash: &Vec<u8>) -> (r: Vec<u8>)
    ensures
        r@ == spec_dedup_tag(device_id@, proof_hash@),
{
    let mut tag = clone_bytes(device_id);
    append_bytes(&mut tag, proof_hash);
    tag
}

/// Decide whether a single unsigned proof submission may enter the
/// pending pool.
///
/// Accepts exactly the submissions from a trusted source whose
/// identifiers obey the length bounds and whose window is well formed;
/// an accepted submission carries the fixed priority and longevity, a
/// tag derived from its device identifier and commitment, and is not
/// relayed.
pub fn admit_proof(source: SubmissionSource, submission: &ProofSubmission) -> (r: Result<
    Admission,
    AdmissionError,
>)
    ensures
        match r {
            Ok(a) => {
                &&& spec_admit_error(source, submission@) is None
                &&& a.priority == PROOF_SUBMISSION_PRIORITY
                &&& a.longevity == PROOF_SUBMISSION_LONGEVITY
                &&& !a.propagate
                &&& a.dedup_tag@ == spec_dedup_tag(submission.device_id@, submission.proof_hash@)
            },
            Err(e) => Some(e) == spec_admit_error(source, submission@),
        },
{
    match source {
        SubmissionSource::External => {
            return Err(AdmissionError::UntrustedSource);
        },
        _ => {
        },
    }
    if submission.device_id.len() > MAX_DEVICE_ID_LENGTH {
        return Err(AdmissionError::DeviceIdTooLong);
    }
    if submission.proof_hash.len() > MAX_PROOF_LENGTH {
        return Err(AdmissionError::ProofTooLong);
    }
    if submission.window_start >= submission.window_end {
        return Err(AdmissionError::InvalidTimeWindow);
    }
    Ok(
        Admission {
            priority: PROOF_SUBMISSION_PRIORITY,
            longevity: PROOF_SUBMISSION_LONGEVITY,
            propagate: false,
            dedup_tag: make_tag(&submission.device_id, &submission.proof_hash),
        },
    )
}

/// Decide whether a batch submission may enter the pending pool.
///
/// Only the source and the structural bounds are checked here; entry
/// validity is re-verified at apply time. The tag is derived from the
/// first entry's device identifier and the last entry's commitment
/// only — an intentionally cheap approximation that under-determines
/// batches sharing those endpoints.
pub fn admit_batch(source: SubmissionSource, entries: &Vec<ProofSubmission>) -> (r: Result<
    Admission,
    AdmissionError,
>)
    ensures
        match r {
            Ok(a) => {
                &&& spec_admit_batch_error(source, crate::proofs::batch_views(entries@)) is None
                &&& a.priority == PROOF_SUBMISSION_PRIORITY
                &&& a.longevity == PROOF_SUBMISSION_LONGEVITY
                &&& !a.propagate
                &&& a.dedup_tag@ == spec_dedup_tag(
                    entries@.first().device_id@,
                    entries@.last().proof_hash@,
                )
            },
            Err(e) => Some(e) == spec_admit_batch_error(
                source,
                crate::proofs::batch_views(entries@),
            ),
        },
{
    match source {
        SubmissionSource::External => {
            return Err(AdmissionError::UntrustedSource);
        },
        _ => {
        },
    }
    if entries.len() == 0 {
        return Err(AdmissionError::EmptyBatch);
    }
    if entries.len() > MAX_BATCH_SIZE {
        return Err(AdmissionError::BatchTooLarge);
    }
    let first = &entries[0];
    let last = &entries[entries.len() - 1];
    Ok(
        Admission {
            priority: PROOF_SUBMISSION_PRIORITY,
            longevity: PROOF_SUBMISSION_LONGEVITY,
            propagate: false,
            dedup_tag: make_tag(&first.device_id, &last.proof_hash),
        },
    )
}

} // verus!
