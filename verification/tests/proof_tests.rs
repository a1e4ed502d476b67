use carbon_ledger::credits::Actor;
use carbon_ledger::errors::ProofError;
use carbon_ledger::ident::{device_id, proof_hash};
use carbon_ledger::proofs::{ProofLedger, ProofSubmission};

fn submission(dev: &str, hash: &str, count: u32, start: u64, end: u64) -> ProofSubmission {
    ProofSubmission {
        device_id: device_id(dev),
        proof_hash: proof_hash(hash),
        record_count: count,
        window_start: start,
        window_end: end,
    }
}

#[test]
fn submit_proof_works() {
    let mut ledger = ProofLedger::new();
    let dev = device_id("device-001");
    let hash = proof_hash("abc123hash");

    let r = ledger.submit_proof(Actor::signed(1), dev.clone(), hash, 10, 1000, 2000, 1, 0);
    assert!(r.is_ok());

    assert_eq!(ledger.proof_count(&dev), 1);
    assert_eq!(ledger.total_proofs(), 1);

    let stored = ledger.proofs(&dev, 0);
    assert!(stored.is_some());
    let metadata = stored.unwrap();
    assert_eq!(metadata.record_count, 10);
    assert_eq!(metadata.window_start, 1000);
    assert_eq!(metadata.window_end, 2000);
}

#[test]
fn submit_proof_rejects_duplicate_in_same_block() {
    let mut ledger = ProofLedger::new();
    let dev = device_id("device-001");

    let first = ledger.submit_proof(
        Actor::signed(1),
        dev.clone(),
        proof_hash("hash1"),
        10,
        1000,
        2000,
        1,
        0,
    );
    assert!(first.is_ok());

    let second = ledger.submit_proof(
        Actor::signed(1),
        dev,
        proof_hash("hash2"),
        10,
        2000,
        3000,
        1,
        0,
    );
    assert!(matches!(second, Err(ProofError::ProofAlreadyExists)));
}

#[test]
fn submit_proof_allows_same_device_different_blocks() {
    let mut ledger = ProofLedger::new();
    let dev = device_id("device-001");

    let first = ledger.submit_proof(
        Actor::signed(1),
        dev.clone(),
        proof_hash("hash1"),
        10,
        1000,
        2000,
        1,
        0,
    );
    assert!(first.is_ok());

    let second = ledger.submit_proof(
        Actor::signed(1),
        dev.clone(),
        proof_hash("hash2"),
        10,
        2000,
        3000,
        2,
        0,
    );
    assert!(second.is_ok());

    assert_eq!(ledger.proof_count(&dev), 2);
}

#[test]
fn submit_proof_rejects_invalid_time_window() {
    let mut ledger = ProofLedger::new();

    // window_start >= window_end must fail.
    let backwards = ledger.submit_proof(
        Actor::signed(1),
        device_id("device-001"),
        proof_hash("hash"),
        10,
        2000,
        1000,
        1,
        0,
    );
    assert!(matches!(backwards, Err(ProofError::InvalidTimeWindow)));

    // Equal bounds must fail too.
    let empty = ledger.submit_proof(
        Actor::signed(1),
        device_id("device-001"),
        proof_hash("hash"),
        10,
        1000,
        1000,
        1,
        0,
    );
    assert!(matches!(empty, Err(ProofError::InvalidTimeWindow)));
}

#[test]
fn submit_proof_rejects_too_long_device_id() {
    let mut ledger = ProofLedger::new();
    let long_id = vec![b'a'; 100];

    let r = ledger.submit_proof(
        Actor::signed(1),
        long_id,
        proof_hash("hash"),
        10,
        1000,
        2000,
        1,
        0,
    );
    assert!(matches!(r, Err(ProofError::DeviceIdTooLong)));
}

#[test]
fn submit_proof_rejects_too_long_hash() {
    let mut ledger = ProofLedger::new();
    let long_hash = vec![b'h'; 200];

    let r = ledger.submit_proof(
        Actor::signed(1),
        device_id("device-001"),
        long_hash,
        10,
        1000,
        2000,
        1,
        0,
    );
    assert!(matches!(r, Err(ProofError::ProofTooLong)));
}

#[test]
fn submit_batch_proofs_works() {
    let mut ledger = ProofLedger::new();
    let entries = vec![
        submission("device-001", "hash1", 10, 1000, 2000),
        submission("device-002", "hash2", 20, 2000, 3000),
        submission("device-003", "hash3", 30, 3000, 4000),
    ];

    let r = ledger.submit_batch_proofs(Actor::signed(1), entries, 1, 0);
    assert!(r.is_ok());

    assert_eq!(ledger.total_proofs(), 3);
    assert_eq!(ledger.proof_count(&device_id("device-001")), 1);
    assert_eq!(ledger.proof_count(&device_id("device-002")), 1);
    assert_eq!(ledger.proof_count(&device_id("device-003")), 1);
}

#[test]
fn submit_batch_proofs_skips_invalid_entries() {
    let mut ledger = ProofLedger::new();
    let entries = vec![
        submission("device-001", "hash1", 10, 1000, 2000), // valid
        submission("device-002", "hash2", 20, 3000, 2000), // invalid window
        submission("device-003", "hash3", 30, 3000, 4000), // valid
    ];

    let r = ledger.submit_batch_proofs(Actor::signed(1), entries, 1, 0);
    assert!(r.is_ok());
    assert_eq!(ledger.total_proofs(), 2);
}

#[test]
fn submit_batch_proofs_rejects_empty_batch() {
    let mut ledger = ProofLedger::new();
    let r = ledger.submit_batch_proofs(Actor::signed(1), vec![], 1, 0);
    assert!(matches!(r, Err(ProofError::EmptyBatch)));
}

#[test]
fn submit_batch_proofs_rejects_oversized_batch() {
    let mut ledger = ProofLedger::new();
    let mut entries = Vec::new();
    for i in 0..101u32 {
        entries.push(submission(&format!("device-{i}"), "hash", 1, 1000, 2000));
    }
    let r = ledger.submit_batch_proofs(Actor::signed(1), entries, 1, 0);
    assert!(matches!(r, Err(ProofError::BatchTooLarge)));
    assert_eq!(ledger.total_proofs(), 0);
}

#[test]
fn submit_batch_proofs_reports_accepted_count() {
    let mut ledger = ProofLedger::new();
    let entries = vec![
        submission("device-001", "hash1", 10, 1000, 2000),
        submission("device-001", "hash2", 10, 2000, 3000), // duplicate height, dropped
        submission("device-002", "hash3", 10, 9000, 8000), // invalid window, dropped
        submission("device-002", "hash4", 10, 3000, 4000),
    ];
    let r = ledger.submit_batch_proofs(Actor::signed(1), entries, 7, 0);
    assert_eq!(r, Ok(2));
    assert_eq!(ledger.total_proofs(), 2);
}

#[test]
fn verify_proof_works() {
    let mut ledger = ProofLedger::new();
    let dev = device_id("device-001");
    let hash = proof_hash("abc123hash");

    let submitted = ledger.submit_proof(
        Actor::signed(1),
        dev.clone(),
        hash.clone(),
        10,
        1000,
        2000,
        1,
        0,
    );
    assert!(submitted.is_ok());

    // The query succeeds both for an existing and for an unknown proof.
    let found = ledger.verify_proof(Actor::signed(1), dev.clone(), hash);
    assert!(found.is_ok());
    let missing = ledger.verify_proof(Actor::signed(1), dev, proof_hash("nonexistent"));
    assert!(missing.is_ok());
}

#[test]
fn proof_exists_helper_works() {
    let mut ledger = ProofLedger::new();
    let dev = device_id("device-001");
    let hash = proof_hash("abc123hash");

    let submitted = ledger.submit_proof(
        Actor::signed(1),
        dev.clone(),
        hash.clone(),
        10,
        1000,
        2000,
        1,
        0,
    );
    assert!(submitted.is_ok());

    assert!(ledger.proof_exists(&dev, &hash));
    assert!(!ledger.proof_exists(&dev, &proof_hash("nonexistent")));
}

#[test]
fn get_proofs_in_window_works() {
    let mut ledger = ProofLedger::new();
    let dev = device_id("device-001");

    let windows: [(u64, u64); 3] = [(1000, 2000), (2000, 3000), (5000, 6000)];
    for (i, (start, end)) in windows.iter().enumerate() {
        let r = ledger.submit_proof(
            Actor::signed(1),
            dev.clone(),
            proof_hash(&format!("hash{}", i + 1)),
            10,
            *start,
            *end,
            (i + 1) as u64,
            0,
        );
        assert!(r.is_ok());
    }

    // Containment, not overlap: [1000, 3000] holds the first two.
    assert_eq!(ledger.get_proofs_in_window(&dev, 1000, 3000).len(), 2);
    assert_eq!(ledger.get_proofs_in_window(&dev, 4000, 7000).len(), 1);
    assert_eq!(ledger.get_proofs_in_window(&dev, 0, 10000).len(), 3);
}

#[test]
fn get_proofs_in_window_excludes_overlap() {
    let mut ledger = ProofLedger::new();
    let dev = device_id("device-001");
    let r = ledger.submit_proof(
        Actor::signed(1),
        dev.clone(),
        proof_hash("hash1"),
        10,
        1000,
        2000,
        1,
        0,
    );
    assert!(r.is_ok());

    // Overlapping but not contained: excluded.
    assert!(ledger.get_proofs_in_window(&dev, 1500, 2500).is_empty());
    // Exactly the window itself: contained.
    let exact = ledger.get_proofs_in_window(&dev, 1000, 2000);
    assert_eq!(exact.len(), 1);
    assert_eq!(exact[0].window_start, 1000);
    assert_eq!(exact[0].window_end, 2000);
}

#[test]
fn latest_proof_block_updated() {
    let mut ledger = ProofLedger::new();
    let dev = device_id("device-001");

    assert!(ledger.latest_proof_block(&dev).is_none());

    let first = ledger.submit_proof(
        Actor::signed(1),
        dev.clone(),
        proof_hash("hash1"),
        10,
        1000,
        2000,
        5,
        0,
    );
    assert!(first.is_ok());
    assert_eq!(ledger.latest_proof_block(&dev), Some(5));

    let second = ledger.submit_proof(
        Actor::signed(1),
        dev.clone(),
        proof_hash("hash2"),
        10,
        2000,
        3000,
        10,
        0,
    );
    assert!(second.is_ok());
    assert_eq!(ledger.latest_proof_block(&dev), Some(10));
}

#[test]
fn submit_proof_assigns_sequential_indices() {
    let mut ledger = ProofLedger::new();
    let dev = device_id("device-001");
    for block in 1..=4u64 {
        let r = ledger.submit_proof(
            Actor::signed(1),
            dev.clone(),
            proof_hash(&format!("hash{block}")),
            10,
            1000,
            2000,
            block,
            0,
        );
        assert_eq!(r, Ok(block - 1));
    }
    assert_eq!(ledger.proof_count(&dev), 4);
}

#[test]
fn get_device_proofs_returns_all_in_order() {
    let mut ledger = ProofLedger::new();
    let dev = device_id("device-001");
    for block in 1..=3u64 {
        let r = ledger.submit_proof(
            Actor::signed(1),
            dev.clone(),
            proof_hash(&format!("hash{block}")),
            block as u32,
            1000 * block,
            1000 * block + 500,
            block,
            0,
        );
        assert!(r.is_ok());
    }
    let all = ledger.get_device_proofs(&dev);
    assert_eq!(all.len(), 3);
    for (i, record) in all.iter().enumerate() {
        assert_eq!(record.block_number, (i + 1) as u64);
        assert_eq!(record.record_count, (i + 1) as u32);
    }
    assert!(ledger.get_device_proofs(&device_id("device-002")).is_empty());
}

#[test]
fn submit_proof_enforces_per_device_cap() {
    let mut ledger = ProofLedger::new();
    let dev = device_id("device-001");
    let hash = proof_hash("h");
    for block in 0..10_000u64 {
        let r = ledger.submit_proof(
            Actor::signed(1),
            dev.clone(),
            hash.clone(),
            1,
            1,
            2,
            block,
            0,
        );
        assert!(r.is_ok());
    }
    let over = ledger.submit_proof(Actor::signed(1), dev.clone(), hash, 1, 1, 2, 10_000, 0);
    assert!(matches!(over, Err(ProofError::MaxProofsExceeded)));
    assert_eq!(ledger.proof_count(&dev), 10_000);
}

#[test]
fn submit_proof_stores_block_and_timestamp() {
    let mut ledger = ProofLedger::new();
    let dev = device_id("device-001");
    let r = ledger.submit_proof(
        Actor::signed(1),
        dev.clone(),
        proof_hash("hash1"),
        10,
        1000,
        2000,
        12,
        777,
    );
    assert!(r.is_ok());
    let stored = ledger.proofs(&dev, 0).unwrap();
    assert_eq!(stored.block_number, 12);
    assert_eq!(stored.timestamp, 777);
    assert_eq!(stored.proof_hash, proof_hash("hash1"));
}
