use carbon_ledger::admission::{
    admit_batch, admit_proof, SubmissionSource, PROOF_SUBMISSION_LONGEVITY,
    PROOF_SUBMISSION_PRIORITY,
};
use carbon_ledger::errors::AdmissionError;
use carbon_ledger::ident::{device_id, proof_hash};
use carbon_ledger::proofs::ProofSubmission;

fn submission(dev: &str, hash: &str, count: u32, start: u64, end: u64) -> ProofSubmission {
    ProofSubmission {
        device_id: device_id(dev),
        proof_hash: proof_hash(hash),
        record_count: count,
        window_start: start,
        window_end: end,
    }
}

#[test]
fn admit_accepts_local_submission() {
    let sub = submission("device-001", "hash1", 10, 1000, 2000);
    let admitted = admit_proof(SubmissionSource::Local, &sub).unwrap();
    assert_eq!(admitted.priority, PROOF_SUBMISSION_PRIORITY);
    assert_eq!(admitted.longevity, PROOF_SUBMISSION_LONGEVITY);
    assert!(!admitted.propagate);

    let mut expected_tag = device_id("device-001");
    expected_tag.extend_from_slice(&proof_hash("hash1"));
    assert_eq!(admitted.dedup_tag, expected_tag);
}

#[test]
fn admit_accepts_in_block_revalidation() {
    let sub = submission("device-001", "hash1", 10, 1000, 2000);
    assert!(admit_proof(SubmissionSource::InBlock, &sub).is_ok());
}

#[test]
fn admit_rejects_external_source() {
    let sub = submission("device-001", "hash1", 10, 1000, 2000);
    let r = admit_proof(SubmissionSource::External, &sub);
    assert!(matches!(r, Err(AdmissionError::UntrustedSource)));
}

#[test]
fn admit_rejects_invalid_window() {
    let sub = submission("device-001", "hash1", 10, 2000, 1000);
    let r = admit_proof(SubmissionSource::Local, &sub);
    assert!(matches!(r, Err(AdmissionError::InvalidTimeWindow)));
}

#[test]
fn admit_rejects_overlong_identifiers() {
    let mut sub = submission("device-001", "hash1", 10, 1000, 2000);
    sub.device_id = vec![b'a'; 100];
    let r = admit_proof(SubmissionSource::Local, &sub);
    assert!(matches!(r, Err(AdmissionError::DeviceIdTooLong)));

    let mut sub = submission("device-001", "hash1", 10, 1000, 2000);
    sub.proof_hash = vec![b'h'; 200];
    let r = admit_proof(SubmissionSource::Local, &sub);
    assert!(matches!(r, Err(AdmissionError::ProofTooLong)));
}

#[test]
fn admit_is_idempotent() {
    let sub = submission("device-001", "hash1", 10, 1000, 2000);
    let first = admit_proof(SubmissionSource::Local, &sub).unwrap();
    let second = admit_proof(SubmissionSource::Local, &sub).unwrap();
    assert_eq!(first.dedup_tag, second.dedup_tag);
    assert_eq!(first.priority, second.priority);
    assert_eq!(first.longevity, second.longevity);
    assert_eq!(first.propagate, second.propagate);
}

#[test]
fn admit_batch_tags_from_first_and_last_entries() {
    let entries = vec![
        submission("device-001", "hash1", 10, 1000, 2000),
        submission("device-002", "hash2", 10, 2000, 3000),
        submission("device-003", "hash3", 10, 3000, 4000),
    ];
    let admitted = admit_batch(SubmissionSource::Local, &entries).unwrap();

    let mut expected_tag = device_id("device-001");
    expected_tag.extend_from_slice(&proof_hash("hash3"));
    assert_eq!(admitted.dedup_tag, expected_tag);
    assert!(!admitted.propagate);
}

#[test]
fn admit_batch_rejects_empty_and_oversized() {
    let r = admit_batch(SubmissionSource::Local, &vec![]);
    assert!(matches!(r, Err(AdmissionError::EmptyBatch)));

    let mut entries = Vec::new();
    for i in 0..101u32 {
        entries.push(submission(&format!("device-{i}"), "hash", 1, 1000, 2000));
    }
    let r = admit_batch(SubmissionSource::Local, &entries);
    assert!(matches!(r, Err(AdmissionError::BatchTooLarge)));
}

#[test]
fn admit_batch_rejects_external_source() {
    let entries = vec![submission("device-001", "hash1", 10, 1000, 2000)];
    let r = admit_batch(SubmissionSource::External, &entries);
    assert!(matches!(r, Err(AdmissionError::UntrustedSource)));
}
