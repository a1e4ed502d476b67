//! General laws of the engine and the ledger.
//!
//! Each proof function here states a property that relates several
//! operations or holds in every state, over the same spec transition
//! functions that the executable operations are proved to implement.

use vstd::prelude::*;

use crate::credits::{
    spec_claim, spec_claim_error, spec_co2_kg, spec_credit_yield, spec_record_energy,
    spec_set_factor, spec_set_factor_error, spec_transfer, spec_transfer_error, spec_withdraw,
    Actor, EngineView, DEFAULT_EMISSION_FACTOR, MIN_CLAIMABLE_ENERGY,
};
use crate::errors::{CreditError, ProofError};
use crate::ident::{MAX_DEVICE_ID_LENGTH, MAX_PROOF_LENGTH};
use crate::proofs::{
    has_block, spec_record_of, spec_submit, spec_submit_error, LedgerView, SubmissionV,
    MAX_PROOFS_PER_DEVICE,
};

verus! {

/// Recording 10 000 Wh for a fresh device and then claiming under the
/// default parameters yields exactly 15 credits and 15 kg of avoided
/// CO2, resets the pending energy to zero, and leaves the lifetime
/// total at 10 000 Wh.
pub proof fn lemma_default_record_then_claim(v: EngineView, d: Seq<u8>)
    requires
        v.emission_factor == DEFAULT_EMISSION_FACTOR,
        v.pending[d] == 0,
        v.lifetime[d] == 0,
        d.len() <= MAX_DEVICE_ID_LENGTH,
    ensures
        ({
            let v1 = spec_record_energy(v, d, 10_000);
            let v2 = spec_claim(v1, d);
            &&& spec_claim_error(v1, d) is None
            &&& spec_credit_yield(v1.pending[d], v1.emission_factor) == 15
            &&& spec_co2_kg(v1.pending[d], v1.emission_factor) == 15
            &&& v2.pending[d] == 0
            &&& v2.lifetime[d] == 10_000
        }),
{
    let v1 = spec_record_energy(v, d, 10_000);
    assert(v1.pending[d] == 10_000);
    assert(spec_co2_kg(10_000, DEFAULT_EMISSION_FACTOR) == 15);
}

/// A claim that goes through never issues zero credits or zero avoided
/// CO2: on the inputs where the yield would truncate to nothing, the
/// claim fails instead.
pub proof fn lemma_successful_claim_is_positive(v: EngineView, d: Seq<u8>)
    requires
        spec_claim_error(v, d) is None,
    ensures
        spec_credit_yield(v.pending[d], v.emission_factor) > 0,
        spec_co2_kg(v.pending[d], v.emission_factor) > 0,
        v.pending[d] >= MIN_CLAIMABLE_ENERGY,
{
}

/// A second claim without an intervening energy record fails with
/// `NoCreditsAvailable`: a successful claim leaves no pending energy.
pub proof fn lemma_claim_twice_fails(v: EngineView, d: Seq<u8>)
    requires
        spec_claim_error(v, d) is None,
    ensures
        spec_claim_error(spec_claim(v, d), d) == Some(CreditError::NoCreditsAvailable),
{
    assert(spec_claim(v, d).pending[d] == 0);
}

/// After a submission is accepted at a block height, any further
/// submission for the same device at the same height is rejected with
/// `ProofAlreadyExists`, however valid it is otherwise.
pub proof fn lemma_duplicate_height_rejected(
    v: LedgerView,
    sub: SubmissionV,
    sub2: SubmissionV,
    block: u64,
    ts: u64,
)
    requires
        spec_submit_error(v, sub, block) is None,
        sub2.device_id == sub.device_id,
        sub2.window_start < sub2.window_end,
        sub2.proof_hash.len() <= MAX_PROOF_LENGTH,
        v.proofs[sub.device_id].len() + 1 < MAX_PROOFS_PER_DEVICE,
    ensures
        spec_submit_error(spec_submit(v, sub, block, ts), sub2, block) == Some(
            ProofError::ProofAlreadyExists,
        ),
{
    let v1 = spec_submit(v, sub, block, ts);
    let rs = v1.proofs[sub.device_id];
    let n = v.proofs[sub.device_id].len() as int;
    assert(rs == v.proofs[sub.device_id].push(spec_record_of(sub, block, ts)));
    assert(rs[n].block_number == block);
    assert(has_block(rs, block));
}

/// Submissions for the same device at two different heights are both
/// accepted, and the device's proof count grows by exactly two.
pub proof fn lemma_distinct_heights_accepted(
    v: LedgerView,
    sub: SubmissionV,
    sub2: SubmissionV,
    b1: u64,
    b2: u64,
    ts: u64,
)
    requires
        spec_submit_error(v, sub, b1) is None,
        sub2.device_id == sub.device_id,
        sub2.window_start < sub2.window_end,
        sub2.proof_hash.len() <= MAX_PROOF_LENGTH,
        v.proofs[sub.device_id].len() + 1 < MAX_PROOFS_PER_DEVICE,
        b2 != b1,
        !has_block(v.proofs[sub.device_id], b2),
    ensures
        spec_submit_error(spec_submit(v, sub, b1, ts), sub2, b2) is None,
        spec_submit(spec_submit(v, sub, b1, ts), sub2, b2, ts).proofs[sub.device_id].len()
            == v.proofs[sub.device_id].len() + 2,
{
    let v1 = spec_submit(v, sub, b1, ts);
    let rs = v1.proofs[sub.device_id];
    let n = v.proofs[sub.device_id].len() as int;
    assert(rs == v.proofs[sub.device_id].push(spec_record_of(sub, b1, ts)));
    if has_block(rs, b2) {
        let m = choose|m: int| 0 <= m < rs.len() && (#[trigger] rs[m]).block_number == b2;
        if m < n {
            assert(v.proofs[sub.device_id][m].block_number == b2);
            assert(has_block(v.proofs[sub.device_id], b2));
        } else {
            assert(rs[m] == spec_record_of(sub, b1, ts));
        }
    }
    assert(spec_submit_error(v1, sub2, b2) is None);
    let v2 = spec_submit(v1, sub2, b2, ts);
    assert(v2.proofs[sub.device_id] == rs.push(spec_record_of(sub2, b2, ts)));
}

/// Transfers conserve credits: the two balances exchange exactly the
/// amount, every other balance is untouched, and the total issued
/// supply does not move. The conservation equation needs the receiving
/// balance not to saturate.
pub proof fn lemma_transfer_conserves(v: EngineView, from: Seq<u8>, to: Seq<u8>, amount: u128)
    requires
        spec_transfer_error(v, from, to, amount) is None,
        v.credits[to] + amount <= u128::MAX,
    ensures
        ({
            let v2 = spec_transfer(v, from, to, amount);
            &&& v2.credits[from] + v2.credits[to] == v.credits[from] + v.credits[to]
            &&& v2.total_credits == v.total_credits
            &&& forall|d: Seq<u8>| d != from && d != to ==> v2.credits[d] == v.credits[d]
            &&& v2.pending == v.pending && v2.lifetime == v.lifetime && v2.accounts == v.accounts
        }),
{
    let v2 = spec_transfer(v, from, to, amount);
    assert(v2.credits[from] == v.credits[from] - amount);
    assert(v2.credits[to] == v.credits[to] + amount);
}

/// A zero emission factor is always rejected with
/// `InvalidEmissionFactor`, and an unprivileged actor is always
/// rejected with `NotAuthorized`, whatever factor it asks for: the
/// privilege test comes first.
pub proof fn lemma_set_factor_guards(actor: Actor, new_factor: u32)
    ensures
        new_factor == 0 ==> spec_set_factor_error(actor, new_factor) is Some,
        actor.privileged && new_factor == 0 ==> spec_set_factor_error(actor, new_factor) == Some(
            CreditError::InvalidEmissionFactor,
        ),
        !actor.privileged ==> spec_set_factor_error(actor, new_factor) == Some(
            CreditError::NotAuthorized,
        ),
{
}

/// The first energy record of a previously unseen device raises the
/// active-device count by exactly one, and a positive record leaves a
/// positive lifetime total behind.
pub proof fn lemma_first_record_counts_device(v: EngineView, d: Seq<u8>, energy_wh: u128)
    requires
        v.pending[d] == 0,
        v.lifetime[d] == 0,
        v.active_devices < u32::MAX,
    ensures
        spec_record_energy(v, d, energy_wh).active_devices == v.active_devices + 1,
        energy_wh > 0 ==> spec_record_energy(v, d, energy_wh).lifetime[d] > 0,
{
}

/// A device with a positive lifetime total is never counted again,
/// and its lifetime total stays positive.
pub proof fn lemma_seen_device_not_recounted(v: EngineView, d: Seq<u8>, energy_wh: u128)
    requires
        v.lifetime[d] > 0,
    ensures
        spec_record_energy(v, d, energy_wh).active_devices == v.active_devices,
        spec_record_energy(v, d, energy_wh).lifetime[d] > 0,
{
}

/// No operation of the engine reduces any device's lifetime energy:
/// recording can only raise it, and every other transition leaves it
/// unchanged. Together with the two lemmas above, this makes the
/// active-device transition fire at most once per device over the
/// engine's whole lifetime once the device has recorded any positive
/// energy.
pub proof fn lemma_lifetime_never_resets(
    v: EngineView,
    d: Seq<u8>,
    a: Seq<u8>,
    b: Seq<u8>,
    account: u64,
    amount: u128,
    energy_wh: u128,
    new_factor: u32,
)
    ensures
        spec_record_energy(v, a, energy_wh).lifetime[d] >= v.lifetime[d],
        spec_claim(v, a).lifetime[d] == v.lifetime[d],
        spec_transfer(v, a, b, amount).lifetime[d] == v.lifetime[d],
        spec_withdraw(v, a, account, amount).lifetime[d] == v.lifetime[d],
        spec_set_factor(v, new_factor).lifetime[d] == v.lifetime[d],
{
}

} // verus!
