//! The proof ledger.
//!
//! An append-only, per-device indexed store of telemetry proof
//! commitments. Each accepted submission becomes an immutable
//! [`ProofRecord`] at the next free index of its device; the ledger
//! enforces at most one record per device and block height, a per-device
//! record cap, and the length bounds on identifiers and commitments.
//!
//! Its abstract state is a [`LedgerView`]: a total map from device
//! identifiers to the sequence of records stored for that device (empty
//! for untouched devices), plus the global record counter. Submissions
//! are specified as functions from view to view and the executable
//! methods are proved to implement them; batch submission is specified
//! as the left-to-right fold of the single-submission transition, so an
//! entry's effect is visible to the validation of later entries in the
//! same batch.

use vstd::prelude::*;

use crate::arith::{sat_add_u64, sat_u64};
use crate::credits::Actor;
use crate::errors::ProofError;
use crate::ident::{bytes_eq, clone_bytes, MAX_DEVICE_ID_LENGTH, MAX_PROOF_LENGTH};

verus! {

/// Most entries a single batch submission may carry.
pub const MAX_BATCH_SIZE: usize = 100;

/// Most proof records a single device may accumulate.
pub const MAX_PROOFS_PER_DEVICE: usize = 10000;

/// One stored proof commitment; immutable once accepted.
pub struct ProofRecord {
    /// The opaque commitment over the telemetry batch.
    pub proof_hash: Vec<u8>,
    /// Block height at which the record was accepted.
    pub block_number: u64,
    /// Wall-clock timestamp supplied by the caller's clock oracle.
    pub timestamp: u64,
    /// Number of telemetry readings the batch covers.
    pub record_count: u32,
    /// Start of the covered time window.
    pub window_start: u64,
    /// End of the covered time window; strictly after the start.
    pub window_end: u64,
}

/// Mathematical value of a [`ProofRecord`].
#[verifier::ext_equal]
pub struct ProofRecordV {
    /// The opaque commitment over the telemetry batch.
    pub proof_hash: Seq<u8>,
    /// Block height at which the record was accepted.
    pub block_number: u64,
    /// Wall-clock timestamp supplied by the caller's clock oracle.
    pub timestamp: u64,
    /// Number of telemetry readings the batch covers.
    pub record_count: u32,
    /// Start of the covered time window.
    pub window_start: u64,
    /// End of the covered time window.
    pub window_end: u64,
}

impl View for ProofRecord {
    type V = ProofRecordV;

    open spec fn view(&self) -> ProofRecordV {
        ProofRecordV {
            proof_hash: self.proof_hash@,
            block_number: self.block_number,
            timestamp: self.timestamp,
            record_count: self.record_count,
            window_start: self.window_start,
            window_end: self.window_end,
        }
    }
}

/// One entry of a batch submission.
pub struct ProofSubmission {
    /// The device the proof belongs to.
    pub device_id: Vec<u8>,
    /// The opaque commitment over the telemetry batch.
    pub proof_hash: Vec<u8>,
    /// Number of telemetry readings the batch covers.
    pub record_count: u32,
    /// Start of the covered time window.
    pub window_start: u64,
    /// End of the covered time window.
    pub window_end: u64,
}

/// Mathematical value of a [`ProofSubmission`].
#[verifier::ext_equal]
pub struct SubmissionV {
    /// The device the proof belongs to.
    pub device_id: Seq<u8>,
    /// The opaque commitment over the telemetry batch.
    pub proof_hash: Seq<u8>,
    /// Number of telemetry readings the batch covers.
    pub record_count: u32,
    /// Start of the covered time window.
    pub window_start: u64,
    /// End of the covered time window.
    pub window_end: u64,
}

impl View for ProofSubmission {
    type V = SubmissionV;

    open spec fn view(&self) -> SubmissionV {
        SubmissionV {
            device_id: self.device_id@,
            proof_hash: self.proof_hash@,
            record_count: self.record_count,
            window_start: self.window_start,
            window_end: self.window_end,
        }
    }
}

/// Per-device slice of the ledger.
pub struct DeviceProofs {
    /// The device identifier these records belong to.
    pub device_id: Vec<u8>,
    /// The records in acceptance order; the index of a record is its
    /// proof index.
    pub records: Vec<ProofRecord>,
}

/// Abstract state of the ledger: a total map with empty defaults.
#[verifier::ext_equal]
pub struct LedgerView {
    /// Records stored per device, in acceptance order.
    pub proofs: Map<Seq<u8>, Seq<ProofRecordV>>,
    /// Records ever accepted, across all devices.
    pub total: u64,
}

impl LedgerView {
    /// The state of a freshly constructed ledger.
    pub open spec fn initial() -> LedgerView {
        LedgerView {
            proofs: Map::new(|d: Seq<u8>| true, |d: Seq<u8>| Seq::<ProofRecordV>::empty()),
            total: 0,
        }
    }
}

/// The mathematical values of a record vector.
pub open spec fn records_view(s: Seq<ProofRecord>) -> Seq<ProofRecordV> {
    s.map_values(|r: ProofRecord| r@)
}

/// Whether some slice in `s` carries the device identifier `k`.
pub open spec fn dp_has(s: Seq<DeviceProofs>, k: Seq<u8>) -> bool {
    exists|i: int| 0 <= i < s.len() && s[i].device_id@ == k
}

/// The index of the slice carrying `k`; meaningful when keys are
/// distinct and `dp_has` holds.
pub open spec fn dp_ix(s: Seq<DeviceProofs>, k: Seq<u8>) -> int {
    choose|i: int| 0 <= i < s.len() && s[i].device_id@ == k
}

/// The slice carrying `k`, if any.
pub open spec fn dp_get(s: Seq<DeviceProofs>, k: Seq<u8>) -> Option<DeviceProofs> {
    if dp_has(s, k) {
        Some(s[dp_ix(s, k)])
    } else {
        None
    }
}

/// No two slices carry the same device identifier.
pub open spec fn dp_keys_distinct(s: Seq<DeviceProofs>) -> bool {
    forall|i: int, j: int|
        0 <= i < j < s.len() ==> (#[trigger] s[i]).device_id@ != (#[trigger] s[j]).device_id@
}

/// Records stored for `k` in `s`, empty when absent.
pub open spec fn proofs_in(s: Seq<DeviceProofs>, k: Seq<u8>) -> Seq<ProofRecordV> {
    match dp_get(s, k) {
        Some(e) => records_view(e.records@),
        None => Seq::empty(),
    }
}

/// A record satisfies the per-record invariants.
pub open spec fn record_wf(r: ProofRecordV) -> bool {
    &&& r.window_start < r.window_end
    &&& r.proof_hash.len() <= MAX_PROOF_LENGTH
}

/// A device's records satisfy the per-device invariants: each record is
/// well formed, the cap is respected, and no two records share a block
/// height.
pub open spec fn records_wf(rs: Seq<ProofRecordV>) -> bool {
    &&& rs.len() <= MAX_PROOFS_PER_DEVICE
    &&& forall|i: int| 0 <= i < rs.len() ==> record_wf(#[trigger] rs[i])
    &&& forall|i: int, j: int|
        0 <= i < j < rs.len() ==> (#[trigger] rs[i]).block_number != (
        #[trigger] rs[j]).block_number
}

/// Whether some record in `rs` sits at block height `b`.
pub open spec fn has_block(rs: Seq<ProofRecordV>, b: u64) -> bool {
    exists|i: int| 0 <= i < rs.len() && (#[trigger] rs[i]).block_number == b
}

/// Whether some record in `rs` carries the commitment `h`.
pub open spec fn contains_hash(rs: Seq<ProofRecordV>, h: Seq<u8>) -> bool {
    exists|i: int| 0 <= i < rs.len() && (#[trigger] rs[i]).proof_hash == h
}

/// The proof ledger.
pub struct ProofLedger {
    /// Per-device record slices, at most one per device identifier.
    pub devices: Vec<DeviceProofs>,
    /// Records ever accepted.
    pub total_proofs: u64,
}

impl View for ProofLedger {
    type V = LedgerView;

    open spec fn view(&self) -> LedgerView {
        LedgerView {
            proofs: Map::new(|d: Seq<u8>| true, |d: Seq<u8>| proofs_in(self.devices@, d)),
            total: self.total_proofs,
        }
    }
}

impl ProofLedger {
    /// Structural invariant: keys are unique, identifiers obey the
    /// length bound, and every device's records are well formed.
    pub open spec fn wf(self) -> bool {
        &&& dp_keys_distinct(self.devices@)
        &&& forall|i: int|
            0 <= i < self.devices@.len() ==> (#[trigger] self.devices@[
                i
            ]).device_id@.len() <= MAX_DEVICE_ID_LENGTH
        &&& forall|i: int|
            0 <= i < self.devices@.len() ==> records_wf(
                records_view((#[trigger] self.devices@[i]).records@),
            )
    }

    /// A fresh, empty ledger.
    pub fn new() -> (r: ProofLedger)
        ensures
            r.wf(),
            r@ == LedgerView::initial(),
    {
        let ledger = ProofLedger { devices: Vec::new(), total_proofs: 0 };
        proof {
            assert(ledger@ =~~= LedgerView::initial());
        }
        ledger
    }
}

/// Bundle the arguments of a single submission into their mathematical
/// value.
pub open spec fn submission_of(d: Seq<u8>, h: Seq<u8>, rc: u32, ws: u64, we: u64) -> SubmissionV {
    SubmissionV { device_id: d, proof_hash: h, record_count: rc, window_start: ws, window_end: we }
}

/// The record a submission becomes when accepted at `block` and `ts`.
pub open spec fn spec_record_of(sub: SubmissionV, block: u64, ts: u64) -> ProofRecordV {
    ProofRecordV {
        proof_hash: sub.proof_hash,
        block_number: block,
        timestamp: ts,
        record_count: sub.record_count,
        window_start: sub.window_start,
        window_end: sub.window_end,
    }
}

/// The error a single submission meets at `block`, if any, in the order
/// the ledger checks: window validity, identifier lengths, the
/// per-device cap, then the duplicate-at-height test.
pub open spec fn spec_submit_error(v: LedgerView, sub: SubmissionV, block: u64) -> Option<
    ProofError,
> {
    if sub.window_start >= sub.window_end {
        Some(ProofError::InvalidTimeWindow)
    } else if sub.device_id.len() > MAX_DEVICE_ID_LENGTH {
        Some(ProofError::DeviceIdTooLong)
    } else if sub.proof_hash.len() > MAX_PROOF_LENGTH {
        Some(ProofError::ProofTooLong)
    } else if v.proofs[sub.device_id].len() >= MAX_PROOFS_PER_DEVICE {
        Some(ProofError::MaxProofsExceeded)
    } else if has_block(v.proofs[sub.device_id], block) {
        Some(ProofError::ProofAlreadyExists)
    } else {
        None
    }
}

/// State transition of a single submission: append the record at the
/// device's next index and count it, or leave the ledger unchanged when
/// the submission is invalid.
pub open spec fn spec_submit(v: LedgerView, sub: SubmissionV, block: u64, ts: u64) -> LedgerView {
    if spec_submit_error(v, sub, block) is None {
        LedgerView {
            proofs: v.proofs.insert(
                sub.device_id,
                v.proofs[sub.device_id].push(spec_record_of(sub, block, ts)),
            ),
            total: sat_u64(v.total + 1),
        }
    } else {
        v
    }
}

/// The structural error of a batch call, if any; per-entry failures
/// never fail the call.
pub open spec fn spec_batch_error(entries: Seq<SubmissionV>) -> Option<ProofError> {
    if entries.len() == 0 {
        Some(ProofError::EmptyBatch)
    } else if entries.len() > MAX_BATCH_SIZE {
        Some(ProofError::BatchTooLarge)
    } else {
        None
    }
}

/// State transition of a batch: the single-submission transition folded
/// over the entries from left to right, so each accepted entry is
/// visible to the validation of the entries after it.
pub open spec fn spec_apply_batch(
    v: LedgerView,
    entries: Seq<SubmissionV>,
    block: u64,
    ts: u64,
) -> LedgerView
    decreases entries.len(),
{
    if entries.len() == 0 {
        v
    } else {
        spec_apply_batch(spec_submit(v, entries.first(), block, ts), entries.drop_first(), block, ts)
    }
}

/// How many entries of a batch are accepted when applied left to right.
pub open spec fn spec_batch_accepted(
    v: LedgerView,
    entries: Seq<SubmissionV>,
    block: u64,
    ts: u64,
) -> int
    decreases entries.len(),
{
    if entries.len() == 0 {
        0int
    } else {
        (if spec_submit_error(v, entries.first(), block) is None {
            1int
        } else {
            0int
        }) + spec_batch_accepted(
            spec_submit(v, entries.first(), block, ts),
            entries.drop_first(),
            block,
            ts,
        )
    }
}

/// The mathematical values of a batch's entries.
pub open spec fn batch_views(entries: Seq<ProofSubmission>) -> Seq<SubmissionV> {
    entries.map_values(|s: ProofSubmission| s@)
}

/// A record's window lies fully inside `[start, end]` — containment,
/// not mere overlap.
pub open spec fn in_window(r: ProofRecordV, start: u64, end: u64) -> bool {
    r.window_start >= start && r.window_end <= end
}

/// The subsequence of `s` whose windows lie fully inside
/// `[start, end]`, in their stored order.
pub open spec fn window_filter(s: Seq<ProofRecordV>, start: u64, end: u64) -> Seq<ProofRecordV>
    decreases s.len(),
{
    if s.len() == 0 {
        Seq::empty()
    } else {
        let rest = window_filter(s.drop_last(), start, end);
        if in_window(s.last(), start, end) {
            rest.push(s.last())
        } else {
            rest
        }
    }
}

/// Viewing a record vector commutes with appending one record.
proof fn lemma_records_view_push(s: Seq<ProofRecord>, r: ProofRecord)
    ensures
        records_view(s.push(r)) == records_view(s).push(r@),
{
    assert forall|m: int| 0 <= m < s.len() + 1 implies records_view(s.push(r))[m] == records_view(
        s,
    ).push(r@)[m] by {
        assert(records_view(s.push(r))[m] == s.push(r)[m]@);
        if m < s.len() {
            assert(s.push(r)[m] == s[m]);
            assert(records_view(s)[m] == s[m]@);
        } else {
            assert(s.push(r)[m] == r);
        }
    }
    assert(records_view(s.push(r)) =~= records_view(s).push(r@));
}

/// `dp_get` finds exactly the slice at `i` when keys are distinct.
proof fn lemma_dp_at(s: Seq<DeviceProofs>, i: int)
    requires
        dp_keys_distinct(s),
        0 <= i < s.len(),
    ensures
        dp_has(s, s[i].device_id@),
        dp_ix(s, s[i].device_id@) == i,
        dp_get(s, s[i].device_id@) == Some(s[i]),
{
    let k = s[i].device_id@;
    assert(dp_has(s, k));
    let j = dp_ix(s, k);
    assert(0 <= j < s.len() && s[j].device_id@ == k);
    if i != j {
        assert(s[i].device_id@ != s[j].device_id@);
    }
}

/// Replacing the slice at `i` by one with the same key changes lookups
/// only at that key.
proof fn lemma_dp_update(s: Seq<DeviceProofs>, i: int, e: DeviceProofs)
    requires
        dp_keys_distinct(s),
        0 <= i < s.len(),
        e.device_id@ == s[i].device_id@,
    ensures
        dp_keys_distinct(s.update(i, e)),
        dp_get(s.update(i, e), e.device_id@) == Some(e),
        forall|k: Seq<u8>| k != e.device_id@ ==> #[trigger] dp_get(s.update(i, e), k) == dp_get(s, k),
{
    let s2 = s.update(i, e);
    assert(forall|n: int| 0 <= n < s.len() ==> (#[trigger] s2[n]).device_id@ == s[n].device_id@);
    assert(dp_keys_distinct(s2));
    lemma_dp_at(s2, i);
    assert forall|k: Seq<u8>| k != e.device_id@ implies #[trigger] dp_get(s2, k) == dp_get(
        s,
        k,
    ) by {
        if dp_has(s, k) {
            let j = dp_ix(s, k);
            assert(0 <= j < s.len() && s[j].device_id@ == k);
            assert(j != i);
            lemma_dp_at(s2, j);
            lemma_dp_at(s, j);
        } else {
            if dp_has(s2, k) {
                let j = dp_ix(s2, k);
                assert(0 <= j < s2.len() && s2[j].device_id@ == k);
                assert(s[j].device_id@ == k);
            }
        }
    }
}

/// Appending a slice with a fresh key changes lookups only at that key.
proof fn lemma_dp_push(s: Seq<DeviceProofs>, e: DeviceProofs)
    requires
        dp_keys_distinct(s),
        !dp_has(s, e.device_id@),
    ensures
        dp_keys_distinct(s.push(e)),
        dp_get(s.push(e), e.device_id@) == Some(e),
        forall|k: Seq<u8>| k != e.device_id@ ==> #[trigger] dp_get(s.push(e), k) == dp_get(s, k),
{
    let s2 = s.push(e);
    assert(forall|n: int| 0 <= n < s.len() ==> #[trigger] s2[n] == s[n]);
    assert(s2[s.len() as int] == e);
    assert forall|i: int, j: int| 0 <= i < j < s2.len() implies (#[trigger] s2[i]).device_id@ != (
    #[trigger] s2[j]).device_id@ by {
        if j == s.len() {
            assert(s2[i] == s[i]);
            if s[i].device_id@ == e.device_id@ {
                assert(dp_has(s, e.device_id@));
            }
        }
    }
    lemma_dp_at(s2, s.len() as int);
    assert forall|k: Seq<u8>| k != e.device_id@ implies #[trigger] dp_get(s2, k) == dp_get(
        s,
        k,
    ) by {
        if dp_has(s, k) {
            let j = dp_ix(s, k);
            assert(0 <= j < s.len() && s[j].device_id@ == k);
            lemma_dp_at(s2, j);
            lemma_dp_at(s, j);
        } else {
            if dp_has(s2, k) {
                let j = dp_ix(s2, k);
                assert(0 <= j < s2.len() && s2[j].device_id@ == k);
                assert(j != s.len());
                assert(s[j].device_id@ == k);
            }
        }
    }
}

/// Locate the slice for a device identifier, if one exists.
fn find_slice(devices: &Vec<DeviceProofs>, id: &Vec<u8>) -> (r: Option<usize>)
    requires
        dp_keys_distinct(devices@),
    ensures
        match r {
            Some(i) => 0 <= i < devices@.len() && devices@[i as int].device_id@ == id@ && dp_get(
                devices@,
                id@,
            ) == Some(devices@[i as int]),
            None => dp_get(devices@, id@) is None,
        },
{
    let n = devices.len();
    let mut i: usize = 0;
    while i < n
        invariant
            n == devices@.len(),
            i <= n,
            dp_keys_distinct(devices@),
            forall|j: int| 0 <= j < i ==> (#[trigger] devices@[j]).device_id@ != id@,
        decreases n - i,
    {
        if bytes_eq(&devices[i].device_id, id) {
            proof {
                lemma_dp_at(devices@, i as int);
            }
            return Some(i);
        }
        i += 1;
    }
    proof {
        if dp_has(devices@, id@) {
            let j = dp_ix(devices@, id@);
            assert(0 <= j < devices@.len() && devices@[j].device_id@ == id@);
        }
    }
    None
}

/// Whether some stored record sits at block height `block`.
fn scan_block(records: &Vec<ProofRecord>, block: u64) -> (r: bool)
    ensures
        r == has_block(records_view(records@), block),
{
    let n = records.len();
    let mut j: usize = 0;
    while j < n
        invariant
            n == records@.len(),
            j <= n,
            forall|m: int| 0 <= m < j ==> (#[trigger] records@[m]).block_number != block,
        decreases n - j,
    {
        if records[j].block_number == block {
            proof {
                let rv = records_view(records@);
                assert(rv[j as int] == records@[j as int]@);
                assert(0 <= j < rv.len() && rv[j as int].block_number == block);
                assert(has_block(rv, block));
            }
            return true;
        }
        j += 1;
    }
    proof {
        let rv = records_view(records@);
        if has_block(rv, block) {
            let m = choose|m: int| 0 <= m < rv.len() && (#[trigger] rv[m]).block_number == block;
            assert(rv[m] == records@[m]@);
        }
    }
    false
}

/// Copy a stored record.
fn copy_record(r: &ProofRecord) -> (c: ProofRecord)
    ensures
        c@ == r@,
{
    ProofRecord {
        proof_hash: clone_bytes(&r.proof_hash),
        block_number: r.block_number,
        timestamp: r.timestamp,
        record_count: r.record_count,
        window_start: r.window_start,
        window_end: r.window_end,
    }
}

impl ProofLedger {
    /// Number of records stored for a device; also the next free proof
    /// index of that device.
    pub fn proof_count(&self, device_id: &Vec<u8>) -> (r: u64)
        requires
            self.wf(),
        ensures
            r == self@.proofs[device_id@].len(),
    {
        match find_slice(&self.devices, device_id) {
            Some(i) => self.devices[i].records.len() as u64,
            None => 0,
        }
    }

    /// Records ever accepted, across all devices.
    pub fn total_proofs(&self) -> (r: u64)
        ensures
            r == self@.total,
    {
        self.total_proofs
    }

    /// The record stored for a device at a proof index, if any.
    pub fn proofs(&self, device_id: &Vec<u8>, index: u64) -> (r: Option<ProofRecord>)
        requires
            self.wf(),
        ensures
            match r {
                Some(rec) => index < self@.proofs[device_id@].len() && rec@
                    == self@.proofs[device_id@][index as int],
                None => index >= self@.proofs[device_id@].len(),
            },
    {
        match find_slice(&self.devices, device_id) {
            Some(i) => {
                let records = &self.devices[i].records;
                if index < records.len() as u64 {
                    Some(copy_record(&records[index as usize]))
                } else {
                    None
                }
            },
            None => None,
        }
    }

    /// The block height of the most recently accepted record for a
    /// device, if it has any.
    pub fn latest_proof_block(&self, device_id: &Vec<u8>) -> (r: Option<u64>)
        requires
            self.wf(),
        ensures
            match r {
                Some(b) => self@.proofs[device_id@].len() > 0 && b
                    == self@.proofs[device_id@].last().block_number,
                None => self@.proofs[device_id@].len() == 0,
            },
    {
        match find_slice(&self.devices, device_id) {
            Some(i) => {
                let records = &self.devices[i].records;
                if records.len() > 0 {
                    Some(records[records.len() - 1].block_number)
                } else {
                    None
                }
            },
            None => None,
        }
    }

    /// Whether a record with the given commitment exists for the device.
    ///
    /// A linear scan over the device's records; there is no index on the
    /// commitment value.
    #[verifier::loop_isolation(false)]
    pub fn proof_exists(&self, device_id: &Vec<u8>, proof_hash: &Vec<u8>) -> (r: bool)
        requires
            self.wf(),
        ensures
            r == contains_hash(self@.proofs[device_id@], proof_hash@),
    {
        let i = match find_slice(&self.devices, device_id) {
            Some(i) => i,
            None => {
                return false;
            },
        };
        let records = &self.devices[i].records;
        let n = records.len();
        let mut j: usize = 0;
        while j < n
            invariant
                n == records@.len(),
                j <= n,
                forall|m: int| 0 <= m < j ==> (#[trigger] records@[m]).proof_hash@ != proof_hash@,
            decreases n - j,
        {
            if bytes_eq(&records[j].proof_hash, proof_hash) {
                proof {
                    let rv = records_view(records@);
                    assert(rv[j as int] == records@[j as int]@);
                    assert(0 <= j < rv.len() && rv[j as int].proof_hash == proof_hash@);
                    assert(contains_hash(rv, proof_hash@));
                    assert(proofs_in(self.devices@, device_id@) == rv);
                    assert(self@.proofs[device_id@] == rv);
                }
                return true;
            }
            j += 1;
        }
        proof {
            if contains_hash(records_view(records@), proof_hash@) {
                let m = choose|m: int|
                    0 <= m < records_view(records@).len() && (#[trigger] records_view(records@)[
                        m
                    ]).proof_hash == proof_hash@;
                assert(records@[m].proof_hash@ == proof_hash@);
            }
        }
        false
    }

    /// Check whether a proof exists, as a read-only query in the shape
    /// of an operation: validates the identifier lengths and returns the
    /// result of the scan.
    pub fn verify_proof(&self, _actor: Actor, device_id: Vec<u8>, proof_hash: Vec<u8>) -> (r:
        Result<bool, ProofError>)
        requires
            self.wf(),
        ensures
            match r {
                Ok(found) => device_id@.len() <= MAX_DEVICE_ID_LENGTH && proof_hash@.len()
                    <= MAX_PROOF_LENGTH && found == contains_hash(
                    self@.proofs[device_id@],
                    proof_hash@,
                ),
                Err(e) => (e == ProofError::DeviceIdTooLong && device_id@.len()
                    > MAX_DEVICE_ID_LENGTH) || (e == ProofError::ProofTooLong && device_id@.len()
                    <= MAX_DEVICE_ID_LENGTH && proof_hash@.len() > MAX_PROOF_LENGTH),
            },
    {
        if device_id.len() > MAX_DEVICE_ID_LENGTH {
            return Err(ProofError::DeviceIdTooLong);
        }
        if proof_hash.len() > MAX_PROOF_LENGTH {
            return Err(ProofError::ProofTooLong);
        }
        Ok(self.proof_exists(&device_id, &proof_hash))
    }

    /// Copies of all records stored for a device, in acceptance order.
    pub fn get_device_proofs(&self, device_id: &Vec<u8>) -> (r: Vec<ProofRecord>)
        requires
            self.wf(),
        ensures
            records_view(r@) == self@.proofs[device_id@],
    {
        let mut out: Vec<ProofRecord> = Vec::new();
        let i = match find_slice(&self.devices, device_id) {
            Some(i) => i,
            None => {
                proof {
                    assert(records_view(out@) =~= self@.proofs[device_id@]);
                }
                return out;
            },
        };
        let records = &self.devices[i].records;
        let n = records.len();
        let mut j: usize = 0;
        while j < n
            invariant
                n == records@.len(),
                j <= n,
                out@.len() == j,
                forall|m: int|
                    0 <= m < j ==> #[trigger] records_view(out@)[m] == records_view(records@)[m],
            decreases n - j,
        {
            let ghost prev = out@;
            out.push(copy_record(&records[j]));
            proof {
                assert forall|m: int| 0 <= m < j + 1 implies #[trigger] records_view(out@)[m]
                    == records_view(records@)[m] by {
                    assert(records_view(out@)[m] == out@[m]@);
                    assert(records_view(records@)[m] == records@[m]@);
                    if m < j {
                        assert(out@[m] == prev[m]);
                        assert(records_view(prev)[m] == prev[m]@);
                    } else {
                        assert(out@[m]@ == records@[j as int]@);
                    }
                }
            }
            j += 1;
        }
        proof {
            assert(records_view(out@) =~= records_view(records@));
        }
        out
    }

    /// Submit one telemetry proof for a device.
    ///
    /// Validates the window, the identifier lengths, the per-device cap
    /// and the duplicate-at-height rule, in that order; any failure
    /// leaves the ledger untouched. On success the record is stored at
    /// the device's next free index, which is returned, and the global
    /// counter grows by one.
    pub fn submit_proof(
        &mut self,
        _actor: Actor,
        device_id: Vec<u8>,
        proof_hash: Vec<u8>,
        record_count: u32,
        window_start: u64,
        window_end: u64,
        block_number: u64,
        timestamp: u64,
    ) -> (r: Result<u64, ProofError>)
        requires
            old(self).wf(),
        ensures
            final(self).wf(),
            match r {
                Ok(ix) => {
                    &&& spec_submit_error(
                        old(self)@,
                        submission_of(
                            device_id@,
                            proof_hash@,
                            record_count,
                            window_start,
                            window_end,
                        ),
                        block_number,
                    ) is None
                    &&& final(self)@ == spec_submit(
                        old(self)@,
                        submission_of(
                            device_id@,
                            proof_hash@,
                            record_count,
                            window_start,
                            window_end,
                        ),
                        block_number,
                        timestamp,
                    )
                    &&& ix == old(self)@.proofs[device_id@].len()
                },
                Err(e) => {
                    &&& Some(e) == spec_submit_error(
                        old(self)@,
                        submission_of(
                            device_id@,
                            proof_hash@,
                            record_count,
                            window_start,
                            window_end,
                        ),
                        block_number,
                    )
                    &&& final(self)@ == old(self)@
                },
            },
    {
        if window_start >= window_end {
            return Err(ProofError::InvalidTimeWindow);
        }
        if device_id.len() > MAX_DEVICE_ID_LENGTH {
            return Err(ProofError::DeviceIdTooLong);
        }
        if proof_hash.len() > MAX_PROOF_LENGTH {
            return Err(ProofError::ProofTooLong);
        }
        let ghost pre = *self;
        let ghost d = device_id@;
        let ghost sub = submission_of(d, proof_hash@, record_count, window_start, window_end);
        let record = ProofRecord {
            proof_hash,
            block_number,
            timestamp,
            record_count,
            window_start,
            window_end,
        };
        match find_slice(&self.devices, &device_id) {
            Some(i) => {
                let count = self.devices[i].records.len();
                if count >= MAX_PROOFS_PER_DEVICE {
                    return Err(ProofError::MaxProofsExceeded);
                }
                if scan_block(&self.devices[i].records, block_number) {
                    return Err(ProofError::ProofAlreadyExists);
                }
                let entry = &mut self.devices[i];
                entry.records.push(record);
                self.total_proofs = sat_add_u64(self.total_proofs, 1);
                proof {
                    let e2 = self.devices@[i as int];
                    assert(e2.device_id@ == d);
                    lemma_dp_update(pre.devices@, i as int, e2);
                    lemma_records_view_push(
                        pre.devices@[i as int].records@,
                        record,
                    );
                    assert(record@ == spec_record_of(sub, block_number, timestamp));
                    assert(forall|n: int|
                        0 <= n < pre.devices@.len() ==> (#[trigger] self.devices@[n]).device_id@
                            == pre.devices@[n].device_id@);
                    let oldrv = records_view(pre.devices@[i as int].records@);
                    let newrv = records_view(e2.records@);
                    assert(newrv == oldrv.push(record@));
                    assert forall|i2: int, j2: int| 0 <= i2 < j2 < newrv.len() implies (
                    #[trigger] newrv[i2]).block_number != (#[trigger] newrv[j2]).block_number by {
                        if j2 == oldrv.len() {
                            if newrv[i2].block_number == block_number {
                                assert(has_block(oldrv, block_number));
                            }
                        }
                    }
                    assert(records_wf(newrv));
                    assert(forall|n: int|
                        0 <= n < self.devices@.len() && n != i ==> self.devices@[n]
                            == pre.devices@[n]);
                    assert(self.wf());
                    assert(self@ =~~= spec_submit(pre@, sub, block_number, timestamp));
                }
                Ok(count as u64)
            },
            None => {
                let mut records: Vec<ProofRecord> = Vec::new();
                records.push(record);
                let slice = DeviceProofs { device_id, records };
                self.devices.push(slice);
                self.total_proofs = sat_add_u64(self.total_proofs, 1);
                proof {
                    lemma_dp_push(pre.devices@, slice);
                    assert(slice.records@ =~= Seq::<ProofRecord>::empty().push(record));
                    lemma_records_view_push(Seq::<ProofRecord>::empty(), record);
                    assert(record@ == spec_record_of(sub, block_number, timestamp));
                    let newrv = records_view(slice.records@);
                    assert(records_view(Seq::<ProofRecord>::empty()) =~= Seq::<
                        ProofRecordV,
                    >::empty());
                    assert(newrv == Seq::<ProofRecordV>::empty().push(record@));
                    assert(records_wf(newrv));
                    assert(pre@.proofs[d] =~= Seq::<ProofRecordV>::empty());
                    assert(self.wf());
                    assert(self@ =~~= spec_submit(pre@, sub, block_number, timestamp));
                }
                Ok(0)
            },
        }
    }

    /// Records of a device whose windows lie fully inside
    /// `[start, end]` — containment, not mere overlap — in acceptance
    /// order, as copies.
    #[verifier::loop_isolation(false)]
    pub fn get_proofs_in_window(&self, device_id: &Vec<u8>, start: u64, end: u64) -> (r: Vec<
        ProofRecord,
    >)
        requires
            self.wf(),
        ensures
            records_view(r@) == window_filter(self@.proofs[device_id@], start, end),
    {
        let mut out: Vec<ProofRecord> = Vec::new();
        let i = match find_slice(&self.devices, device_id) {
            Some(i) => i,
            None => {
                proof {
                    assert(records_view(out@) =~= window_filter(
                        self@.proofs[device_id@],
                        start,
                        end,
                    ));
                }
                return out;
            },
        };
        let records = &self.devices[i].records;
        let ghost rv = records_view(records@);
        let n = records.len();
        let mut j: usize = 0;
        while j < n
            invariant
                j <= n,
                records_view(out@) == window_filter(rv.take(j as int), start, end),
            decreases n - j,
        {
            let ghost prev = out@;
            let rec = &records[j];
            if rec.window_start >= start && rec.window_end <= end {
                let c = copy_record(rec);
                let ghost cval = c;
                out.push(c);
                proof {
                    lemma_records_view_push(prev, cval);
                    assert(cval@ == rv[j as int]);
                }
            }
            proof {
                assert(rv.take(j as int + 1).drop_last() =~= rv.take(j as int));
                assert(rv.take(j as int + 1).last() == rv[j as int]);
                assert(rv[j as int] == records@[j as int]@);
                assert(records_view(out@) == window_filter(rv.take(j as int + 1), start, end));
            }
            j += 1;
        }
        proof {
            assert(rv.take(n as int) =~= rv);
        }
        out
    }

    /// Submit a batch of proofs.
    ///
    /// Only the structural checks — the batch must be non-empty and at
    /// most [`MAX_BATCH_SIZE`] entries — can fail the call, and a
    /// failure leaves the ledger untouched. Otherwise the entries are
    /// applied in order under the same rules as a single submission;
    /// invalid or duplicate entries are dropped silently, an accepted
    /// entry is visible to the validation of the entries after it, and
    /// the call returns how many entries were accepted.
    pub fn submit_batch_proofs(
        &mut self,
        actor: Actor,
        entries: Vec<ProofSubmission>,
        block_number: u64,
        timestamp: u64,
    ) -> (r: Result<u32, ProofError>)
        requires
            old(self).wf(),
        ensures
            final(self).wf(),
            match r {
                Ok(accepted) => {
                    &&& spec_batch_error(batch_views(entries@)) is None
                    &&& final(self)@ == spec_apply_batch(
                        old(self)@,
                        batch_views(entries@),
                        block_number,
                        timestamp,
                    )
                    &&& accepted == spec_batch_accepted(
                        old(self)@,
                        batch_views(entries@),
                        block_number,
                        timestamp,
                    )
                },
                Err(e) => {
                    &&& Some(e) == spec_batch_error(batch_views(entries@))
                    &&& final(self)@ == old(self)@
                },
            },
    {
        if entries.len() == 0 {
            return Err(ProofError::EmptyBatch);
        }
        if entries.len() > MAX_BATCH_SIZE {
            return Err(ProofError::BatchTooLarge);
        }
        let ghost pre = *self;
        let ghost ev = batch_views(entries@);
        let n = entries.len();
        let mut accepted: u32 = 0;
        let mut i: usize = 0;
        proof {
            assert(ev.skip(0) =~= ev);
        }
        while i < n
            invariant
                n == entries@.len(),
                n <= MAX_BATCH_SIZE,
                ev == batch_views(entries@),
                i <= n,
                accepted <= i,
                self.wf(),
                spec_apply_batch(self@, ev.skip(i as int), block_number, timestamp)
                    == spec_apply_batch(pre@, ev, block_number, timestamp),
                accepted + spec_batch_accepted(self@, ev.skip(i as int), block_number, timestamp)
                    == spec_batch_accepted(pre@, ev, block_number, timestamp),
            decreases n - i,
        {
            let ghost cur = *self;
            let dev = clone_bytes(&entries[i].device_id);
            let hash = clone_bytes(&entries[i].proof_hash);
            let record_count = entries[i].record_count;
            let window_start = entries[i].window_start;
            let window_end = entries[i].window_end;
            let result = self.submit_proof(
                actor,
                dev,
                hash,
                record_count,
                window_start,
                window_end,
                block_number,
                timestamp,
            );
            proof {
                assert(ev[i as int] == entries@[i as int]@);
                assert(submission_of(dev@, hash@, record_count, window_start, window_end) == ev[
                    i as int
                ]);
                assert(self@ == spec_submit(cur@, ev[i as int], block_number, timestamp));
                assert(ev.skip(i as int).first() == ev[i as int]);
                assert(ev.skip(i as int).drop_first() =~= ev.skip(i as int + 1));
                assert(spec_apply_batch(cur@, ev.skip(i as int), block_number, timestamp)
                    == spec_apply_batch(self@, ev.skip(i as int + 1), block_number, timestamp));
                assert(spec_batch_accepted(cur@, ev.skip(i as int), block_number, timestamp) == (
                if spec_submit_error(cur@, ev[i as int], block_number) is None {
                    1int
                } else {
                    0int
                }) + spec_batch_accepted(self@, ev.skip(i as int + 1), block_number, timestamp));
            }
            match result {
                Ok(_) => {
                    accepted = accepted + 1;
                },
                Err(_) => {
                },
            }
            i += 1;
        }
        proof {
            assert(ev.skip(n as int) =~= Seq::<SubmissionV>::empty());
        }
        Ok(accepted)
    }
}

} // verus!
