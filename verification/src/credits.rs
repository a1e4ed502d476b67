//! The credit accounting engine.
//!
//! The engine accumulates recorded energy per device, converts it into
//! credit balances under a governance-adjustable emission factor, and
//! moves credits between device balances and externally held account
//! balances.
//!
//! Its abstract state is an [`EngineView`]: total maps from device
//! identifiers (byte sequences) to pending energy, lifetime energy,
//! credit balance and issuance count, a map from account identifiers to
//! account balances, and the global aggregates. Devices that were never
//! touched map to zero. Every mutating operation is specified as a
//! function from view to view, and the executable methods are proved to
//! implement exactly those functions.

use vstd::prelude::*;

use crate::arith::{sat_add_u128, sat_add_u32, sat_mul_u128, sat_u128, sat_u32};
use crate::errors::CreditError;
use crate::ident::{bytes_eq, MAX_DEVICE_ID_LENGTH};

verus! {

/// Credits issued per ton of avoided CO2.
pub const CREDITS_PER_TON_CO2: u128 = 1000;

/// Emission factor a fresh engine starts with (kg CO2 per kWh, scaled
/// by 1000).
pub const DEFAULT_EMISSION_FACTOR: u32 = 1500;

/// Minimum pending energy (Wh) a claim requires.
pub const MIN_CLAIMABLE_ENERGY: u128 = 1000;

/// The identity a caller supplies with each mutating operation.
///
/// Privilege classification is the caller's responsibility: the engine
/// only tests the `privileged` capability where an operation demands it.
#[derive(Clone, Copy, Debug, PartialEq, Eq, Structural)]
pub struct Actor {
    /// Account the actor acts for; withdrawn credits are booked here.
    pub account: u64,
    /// Whether the actor may perform governance operations.
    pub privileged: bool,
}

impl Actor {
    /// An ordinary signed actor without governance privilege.
    pub fn signed(account: u64) -> (r: Actor)
        ensures
            r.account == account && !r.privileged,
    {
        Actor { account, privileged: false }
    }

    /// A governance actor.
    pub fn root(account: u64) -> (r: Actor)
        ensures
            r.account == account && r.privileged,
    {
        Actor { account, privileged: true }
    }
}

/// Per-device accounting record.
pub struct DeviceAccount {
    /// The device identifier this record belongs to.
    pub device_id: Vec<u8>,
    /// Energy recorded but not yet converted into credits, in Wh.
    pub pending_wh: u128,
    /// Cumulative energy ever recorded, in Wh; never reset.
    pub lifetime_wh: u128,
    /// Credit balance of the device.
    pub credits: u128,
    /// Number of claims this device has completed.
    pub issuances: u32,
}

/// Per-account credit balance, fed by withdrawals from device balances.
pub struct AccountEntry {
    /// The account identifier.
    pub account: u64,
    /// Credits held by the account.
    pub credits: u128,
}

/// What a successful claim issued; the event record of `claim_credits`.
#[derive(Clone, Copy, Debug, PartialEq, Eq, Structural)]
pub struct ClaimReceipt {
    /// Credits added to the device balance.
    pub credits: u128,
    /// Pending energy (Wh) the claim consumed.
    pub energy_wh: u128,
    /// CO2 avoided, in whole kilograms (fractions truncate).
    pub co2_avoided_kg: u128,
}

/// Abstract state of the engine: total maps with zero defaults.
#[verifier::ext_equal]
pub struct EngineView {
    /// Pending (claimable) energy per device, in Wh.
    pub pending: Map<Seq<u8>, u128>,
    /// Lifetime energy per device, in Wh.
    pub lifetime: Map<Seq<u8>, u128>,
    /// Credit balance per device.
    pub credits: Map<Seq<u8>, u128>,
    /// Completed claims per device.
    pub issuances: Map<Seq<u8>, u32>,
    /// Credit balance per externally held account.
    pub accounts: Map<u64, u128>,
    /// Current emission factor (kg CO2 per kWh, scaled by 1000).
    pub emission_factor: u32,
    /// Credits ever issued, across all devices.
    pub total_credits: u128,
    /// CO2 ever avoided, in whole kilograms.
    pub total_co2: u128,
    /// Devices that have recorded energy at least once.
    pub active_devices: u32,
}

impl EngineView {
    /// The state of a freshly constructed engine.
    pub open spec fn initial() -> EngineView {
        EngineView {
            pending: Map::new(|d: Seq<u8>| true, |d: Seq<u8>| 0u128),
            lifetime: Map::new(|d: Seq<u8>| true, |d: Seq<u8>| 0u128),
            credits: Map::new(|d: Seq<u8>| true, |d: Seq<u8>| 0u128),
            issuances: Map::new(|d: Seq<u8>| true, |d: Seq<u8>| 0u32),
            accounts: Map::new(|a: u64| true, |a: u64| 0u128),
            emission_factor: DEFAULT_EMISSION_FACTOR,
            total_credits: 0,
            total_co2: 0,
            active_devices: 0,
        }
    }
}

/// Whether some record in `s` carries the device identifier `k`.
pub open spec fn dev_has(s: Seq<DeviceAccount>, k: Seq<u8>) -> bool {
    exists|i: int| 0 <= i < s.len() && s[i].device_id@ == k
}

/// The index of the record carrying `k`; meaningful when keys are
/// distinct and `dev_has` holds.
pub open spec fn dev_ix(s: Seq<DeviceAccount>, k: Seq<u8>) -> int {
    choose|i: int| 0 <= i < s.len() && s[i].device_id@ == k
}

/// The record carrying `k`, if any.
pub open spec fn dev_get(s: Seq<DeviceAccount>, k: Seq<u8>) -> Option<DeviceAccount> {
    if dev_has(s, k) {
        Some(s[dev_ix(s, k)])
    } else {
        None
    }
}

/// No two records carry the same device identifier.
pub open spec fn dev_keys_distinct(s: Seq<DeviceAccount>) -> bool {
    forall|i: int, j: int|
        0 <= i < j < s.len() ==> (#[trigger] s[i]).device_id@ != (#[trigger] s[j]).device_id@
}

/// Whether some entry in `s` carries the account identifier `k`.
pub open spec fn acc_has(s: Seq<AccountEntry>, k: u64) -> bool {
    exists|i: int| 0 <= i < s.len() && s[i].account == k
}

/// The index of the entry carrying `k`; meaningful when keys are
/// distinct and `acc_has` holds.
pub open spec fn acc_ix(s: Seq<AccountEntry>, k: u64) -> int {
    choose|i: int| 0 <= i < s.len() && s[i].account == k
}

/// The entry carrying `k`, if any.
pub open spec fn acc_get(s: Seq<AccountEntry>, k: u64) -> Option<AccountEntry> {
    if acc_has(s, k) {
        Some(s[acc_ix(s, k)])
    } else {
        None
    }
}

/// No two entries carry the same account identifier.
pub open spec fn acc_keys_distinct(s: Seq<AccountEntry>) -> bool {
    forall|i: int, j: int|
        0 <= i < j < s.len() ==> (#[trigger] s[i]).account != (#[trigger] s[j]).account
}

/// Pending energy recorded for `k` in `s`, zero when absent.
pub open spec fn pending_in(s: Seq<DeviceAccount>, k: Seq<u8>) -> u128 {
    match dev_get(s, k) {
        Some(e) => e.pending_wh,
        None => 0,
    }
}

/// Lifetime energy recorded for `k` in `s`, zero when absent.
pub open spec fn lifetime_in(s: Seq<DeviceAccount>, k: Seq<u8>) -> u128 {
    match dev_get(s, k) {
        Some(e) => e.lifetime_wh,
        None => 0,
    }
}

/// Credit balance of `k` in `s`, zero when absent.
pub open spec fn credits_in(s: Seq<DeviceAccount>, k: Seq<u8>) -> u128 {
    match dev_get(s, k) {
        Some(e) => e.credits,
        None => 0,
    }
}

/// Issuance count of `k` in `s`, zero when absent.
pub open spec fn issuances_in(s: Seq<DeviceAccount>, k: Seq<u8>) -> u32 {
    match dev_get(s, k) {
        Some(e) => e.issuances,
        None => 0,
    }
}

/// Account balance of `k` in `s`, zero when absent.
pub open spec fn account_credits_in(s: Seq<AccountEntry>, k: u64) -> u128 {
    match acc_get(s, k) {
        Some(e) => e.credits,
        None => 0,
    }
}

/// The credit accounting engine.
pub struct CreditEngine {
    /// Per-device records, at most one per device identifier.
    pub devices: Vec<DeviceAccount>,
    /// Per-account balances, at most one per account identifier.
    pub accounts: Vec<AccountEntry>,
    /// Current emission factor (kg CO2 per kWh, scaled by 1000).
    pub emission_factor: u32,
    /// Credits ever issued.
    pub total_credits_issued: u128,
    /// CO2 ever avoided, in whole kilograms.
    pub total_co2_avoided: u128,
    /// Devices counted as active.
    pub active_devices: u32,
}

impl View for CreditEngine {
    type V = EngineView;

    open spec fn view(&self) -> EngineView {
        EngineView {
            pending: Map::new(|d: Seq<u8>| true, |d: Seq<u8>| pending_in(self.devices@, d)),
            lifetime: Map::new(|d: Seq<u8>| true, |d: Seq<u8>| lifetime_in(self.devices@, d)),
            credits: Map::new(|d: Seq<u8>| true, |d: Seq<u8>| credits_in(self.devices@, d)),
            issuances: Map::new(|d: Seq<u8>| true, |d: Seq<u8>| issuances_in(self.devices@, d)),
            accounts: Map::new(|a: u64| true, |a: u64| account_credits_in(self.accounts@, a)),
            emission_factor: self.emission_factor,
            total_credits: self.total_credits_issued,
            total_co2: self.total_co2_avoided,
            active_devices: self.active_devices,
        }
    }
}

impl CreditEngine {
    /// Structural invariant: keys are unique and device identifiers obey
    /// the length bound.
    pub open spec fn wf(self) -> bool {
        &&& dev_keys_distinct(self.devices@)
        &&& acc_keys_distinct(self.accounts@)
        &&& forall|i: int|
            0 <= i < self.devices@.len() ==> (#[trigger] self.devices@[
                i
            ]).device_id@.len() <= MAX_DEVICE_ID_LENGTH
    }

    /// A fresh engine: no devices, no accounts, default emission factor.
    pub fn new() -> (r: CreditEngine)
        ensures
            r.wf(),
            r@ == EngineView::initial(),
    {
        let engine = CreditEngine {
            devices: Vec::new(),
            accounts: Vec::new(),
            emission_factor: DEFAULT_EMISSION_FACTOR,
            total_credits_issued: 0,
            total_co2_avoided: 0,
            active_devices: 0,
        };
        proof {
            assert(engine@ =~= EngineView::initial());
        }
        engine
    }
}

/// `dev_get` finds exactly the record at `i` when keys are distinct.
proof fn lemma_dev_at(s: Seq<DeviceAccount>, i: int)
    requires
        dev_keys_distinct(s),
        0 <= i < s.len(),
    ensures
        dev_has(s, s[i].device_id@),
        dev_ix(s, s[i].device_id@) == i,
        dev_get(s, s[i].device_id@) == Some(s[i]),
{
    let k = s[i].device_id@;
    assert(dev_has(s, k));
    let j = dev_ix(s, k);
    assert(0 <= j < s.len() && s[j].device_id@ == k);
    if i != j {
        assert(s[i].device_id@ != s[j].device_id@);
    }
}

/// Replacing the record at `i` by one with the same key changes lookups
/// only at that key.
proof fn lemma_dev_update(s: Seq<DeviceAccount>, i: int, e: DeviceAccount)
    requires
        dev_keys_distinct(s),
        0 <= i < s.len(),
        e.device_id@ == s[i].device_id@,
    ensures
        dev_keys_distinct(s.update(i, e)),
        dev_get(s.update(i, e), e.device_id@) == Some(e),
        forall|k: Seq<u8>|
            k != e.device_id@ ==> #[trigger] dev_get(s.update(i, e), k) == dev_get(s, k),
{
    let s2 = s.update(i, e);
    assert(forall|n: int|
        0 <= n < s.len() ==> (#[trigger] s2[n]).device_id@ == s[n].device_id@);
    assert(dev_keys_distinct(s2));
    lemma_dev_at(s2, i);
    assert forall|k: Seq<u8>| k != e.device_id@ implies #[trigger] dev_get(s2, k) == dev_get(
        s,
        k,
    ) by {
        if dev_has(s, k) {
            let j = dev_ix(s, k);
            assert(0 <= j < s.len() && s[j].device_id@ == k);
            assert(j != i);
            lemma_dev_at(s2, j);
            lemma_dev_at(s, j);
        } else {
            if dev_has(s2, k) {
                let j = dev_ix(s2, k);
                assert(0 <= j < s2.len() && s2[j].device_id@ == k);
                assert(s[j].device_id@ == k);
            }
        }
    }
}

/// Appending a record with a fresh key changes lookups only at that key.
proof fn lemma_dev_push(s: Seq<DeviceAccount>, e: DeviceAccount)
    requires
        dev_keys_distinct(s),
        !dev_has(s, e.device_id@),
    ensures
        dev_keys_distinct(s.push(e)),
        dev_get(s.push(e), e.device_id@) == Some(e),
        forall|k: Seq<u8>| k != e.device_id@ ==> #[trigger] dev_get(s.push(e), k) == dev_get(s, k),
{
    let s2 = s.push(e);
    assert(forall|n: int| 0 <= n < s.len() ==> #[trigger] s2[n] == s[n]);
    assert(s2[s.len() as int] == e);
    assert forall|i: int, j: int| 0 <= i < j < s2.len() implies (#[trigger] s2[i]).device_id@ != (
    #[trigger] s2[j]).device_id@ by {
        if j == s.len() {
            assert(s2[i] == s[i]);
            if s[i].device_id@ == e.device_id@ {
                assert(dev_has(s, e.device_id@));
            }
        }
    }
    lemma_dev_at(s2, s.len() as int);
    assert forall|k: Seq<u8>| k != e.device_id@ implies #[trigger] dev_get(s2, k) == dev_get(
        s,
        k,
    ) by {
        if dev_has(s, k) {
            let j = dev_ix(s, k);
            assert(0 <= j < s.len() && s[j].device_id@ == k);
            lemma_dev_at(s2, j);
            lemma_dev_at(s, j);
        } else {
            if dev_has(s2, k) {
                let j = dev_ix(s2, k);
                assert(0 <= j < s2.len() && s2[j].device_id@ == k);
                assert(j != s.len());
                assert(s[j].device_id@ == k);
            }
        }
    }
}

/// `acc_get` finds exactly the entry at `i` when keys are distinct.
proof fn lemma_acc_at(s: Seq<AccountEntry>, i: int)
    requires
        acc_keys_distinct(s),
        0 <= i < s.len(),
    ensures
        acc_has(s, s[i].account),
        acc_ix(s, s[i].account) == i,
        acc_get(s, s[i].account) == Some(s[i]),
{
    let k = s[i].account;
    assert(acc_has(s, k));
    let j = acc_ix(s, k);
    assert(0 <= j < s.len() && s[j].account == k);
    if i != j {
        assert(s[i].account != s[j].account);
    }
}

/// Replacing the entry at `i` by one with the same key changes lookups
/// only at that key.
proof fn lemma_acc_update(s: Seq<AccountEntry>, i: int, e: AccountEntry)
    requires
        acc_keys_distinct(s),
        0 <= i < s.len(),
        e.account == s[i].account,
    ensures
        acc_keys_distinct(s.update(i, e)),
        acc_get(s.update(i, e), e.account) == Some(e),
        forall|k: u64| k != e.account ==> #[trigger] acc_get(s.update(i, e), k) == acc_get(s, k),
{
    let s2 = s.update(i, e);
    assert(forall|n: int| 0 <= n < s.len() ==> (#[trigger] s2[n]).account == s[n].account);
    assert(acc_keys_distinct(s2));
    lemma_acc_at(s2, i);
    assert forall|k: u64| k != e.account implies #[trigger] acc_get(s2, k) == acc_get(s, k) by {
        if acc_has(s, k) {
            let j = acc_ix(s, k);
            assert(0 <= j < s.len() && s[j].account == k);
            assert(j != i);
            lemma_acc_at(s2, j);
            lemma_acc_at(s, j);
        } else {
            if acc_has(s2, k) {
                let j = acc_ix(s2, k);
                assert(0 <= j < s2.len() && s2[j].account == k);
                assert(s[j].account == k);
            }
        }
    }
}

/// Appending an entry with a fresh key changes lookups only at that key.
proof fn lemma_acc_push(s: Seq<AccountEntry>, e: AccountEntry)
    requires
        acc_keys_distinct(s),
        !acc_has(s, e.account),
    ensures
        acc_keys_distinct(s.push(e)),
        acc_get(s.push(e), e.account) == Some(e),
        forall|k: u64| k != e.account ==> #[trigger] acc_get(s.push(e), k) == acc_get(s, k),
{
    let s2 = s.push(e);
    assert(forall|n: int| 0 <= n < s.len() ==> #[trigger] s2[n] == s[n]);
    assert(s2[s.len() as int] == e);
    assert forall|i: int, j: int| 0 <= i < j < s2.len() implies (#[trigger] s2[i]).account != (
    #[trigger] s2[j]).account by {
        if j == s.len() {
            assert(s2[i] == s[i]);
            if s[i].account == e.account {
                assert(acc_has(s, e.account));
            }
        }
    }
    lemma_acc_at(s2, s.len() as int);
    assert forall|k: u64| k != e.account implies #[trigger] acc_get(s2, k) == acc_get(s, k) by {
        if acc_has(s, k) {
            let j = acc_ix(s, k);
            assert(0 <= j < s.len() && s[j].account == k);
            lemma_acc_at(s2, j);
            lemma_acc_at(s, j);
        } else {
            if acc_has(s2, k) {
                let j = acc_ix(s2, k);
                assert(0 <= j < s2.len() && s2[j].account == k);
                assert(j != s.len());
                assert(s[j].account == k);
            }
        }
    }
}

/// Energy converted to whole kWh, truncating.
pub open spec fn spec_energy_kwh(pending_wh: u128) -> int {
    pending_wh as int / 1000
}

/// CO2 avoided (kg) by `pending_wh` of energy under `factor`: the kWh
/// value times the factor, saturating at `u128::MAX`, divided by the
/// factor's scale of 1000. Fractions truncate.
pub open spec fn spec_co2_kg(pending_wh: u128, factor: u32) -> u128 {
    (sat_u128(spec_energy_kwh(pending_wh) * factor) as int / 1000) as u128
}

/// Credits issued for `pending_wh` of energy under `factor`: the avoided
/// CO2 (kg, which carries a scale of 1000 relative to tons) times
/// [`CREDITS_PER_TON_CO2`], saturating, divided by 1000. Fractions
/// truncate.
pub open spec fn spec_credit_yield(pending_wh: u128, factor: u32) -> u128 {
    (sat_u128(spec_co2_kg(pending_wh, factor) as int * CREDITS_PER_TON_CO2 as int) as int
        / 1000) as u128
}

/// State transition of `record_energy`: add the energy (saturating) to
/// the device's pending and lifetime totals, and count the device as
/// active if it had never recorded energy before.
pub open spec fn spec_record_energy(v: EngineView, d: Seq<u8>, energy_wh: u128) -> EngineView {
    EngineView {
        pending: v.pending.insert(d, sat_u128(v.pending[d] + energy_wh)),
        lifetime: v.lifetime.insert(d, sat_u128(v.lifetime[d] + energy_wh)),
        active_devices: if v.pending[d] == 0 && v.lifetime[d] == 0 {
            sat_u32(v.active_devices + 1)
        } else {
            v.active_devices
        },
        ..v
    }
}

/// The error `record_energy` returns, if any.
pub open spec fn spec_record_energy_error(d: Seq<u8>) -> Option<CreditError> {
    if d.len() > MAX_DEVICE_ID_LENGTH {
        Some(CreditError::DeviceIdTooLong)
    } else {
        None
    }
}

/// State transition of a successful `claim_credits`: reset the pending
/// energy, add the yielded credits to the device balance and the global
/// aggregates, and count the issuance. Lifetime energy is untouched.
pub open spec fn spec_claim(v: EngineView, d: Seq<u8>) -> EngineView {
    let co2 = spec_co2_kg(v.pending[d], v.emission_factor);
    let yielded = spec_credit_yield(v.pending[d], v.emission_factor);
    EngineView {
        pending: v.pending.insert(d, 0),
        credits: v.credits.insert(d, sat_u128(v.credits[d] + yielded)),
        issuances: v.issuances.insert(d, sat_u32(v.issuances[d] + 1)),
        total_credits: sat_u128(v.total_credits + yielded),
        total_co2: sat_u128(v.total_co2 + co2),
        ..v
    }
}

/// The error `claim_credits` returns, if any. The checked divisions in
/// the claim path divide by the nonzero constant 1000, so
/// `CreditError::Overflow` is never among these.
pub open spec fn spec_claim_error(v: EngineView, d: Seq<u8>) -> Option<CreditError> {
    if d.len() > MAX_DEVICE_ID_LENGTH {
        Some(CreditError::DeviceIdTooLong)
    } else if v.pending[d] == 0 {
        Some(CreditError::NoCreditsAvailable)
    } else if v.pending[d] < MIN_CLAIMABLE_ENERGY {
        Some(CreditError::EnergyBelowMinimum)
    } else if spec_co2_kg(v.pending[d], v.emission_factor) == 0 || spec_credit_yield(
        v.pending[d],
        v.emission_factor,
    ) == 0 {
        Some(CreditError::NoCreditsAvailable)
    } else {
        None
    }
}

/// State transition of a successful `transfer_credits`: move the amount
/// between the two device balances. Meaningful when `from != to` and the
/// source balance covers the amount.
pub open spec fn spec_transfer(v: EngineView, from: Seq<u8>, to: Seq<u8>, amount: u128) -> EngineView {
    EngineView {
        credits: v.credits.insert(from, (v.credits[from] - amount) as u128).insert(
            to,
            sat_u128(v.credits[to] + amount),
        ),
        ..v
    }
}

/// The error `transfer_credits` returns, if any.
pub open spec fn spec_transfer_error(
    v: EngineView,
    from: Seq<u8>,
    to: Seq<u8>,
    amount: u128,
) -> Option<CreditError> {
    if from.len() > MAX_DEVICE_ID_LENGTH {
        Some(CreditError::DeviceIdTooLong)
    } else if to.len() > MAX_DEVICE_ID_LENGTH {
        Some(CreditError::DeviceIdTooLong)
    } else if from == to {
        Some(CreditError::SameDeviceTransfer)
    } else if v.credits[from] < amount {
        Some(CreditError::InsufficientCredits)
    } else {
        None
    }
}

/// State transition of a successful `withdraw_credits`: move the amount
/// from the device balance to the actor's account balance.
pub open spec fn spec_withdraw(v: EngineView, d: Seq<u8>, account: u64, amount: u128) -> EngineView {
    EngineView {
        credits: v.credits.insert(d, (v.credits[d] - amount) as u128),
        accounts: v.accounts.insert(account, sat_u128(v.accounts[account] + amount)),
        ..v
    }
}

/// The error `withdraw_credits` returns, if any.
pub open spec fn spec_withdraw_error(v: EngineView, d: Seq<u8>, amount: u128) -> Option<
    CreditError,
> {
    if d.len() > MAX_DEVICE_ID_LENGTH {
        Some(CreditError::DeviceIdTooLong)
    } else if v.credits[d] < amount {
        Some(CreditError::InsufficientCredits)
    } else {
        None
    }
}

/// State transition of a successful `set_emission_factor`: only the
/// factor changes.
pub open spec fn spec_set_factor(v: EngineView, new_factor: u32) -> EngineView {
    EngineView { emission_factor: new_factor, ..v }
}

/// The error `set_emission_factor` returns, if any: the privilege test
/// comes first, so an unprivileged actor fails with `NotAuthorized`
/// whatever factor it asks for.
pub open spec fn spec_set_factor_error(actor: Actor, new_factor: u32) -> Option<CreditError> {
    if !actor.privileged {
        Some(CreditError::NotAuthorized)
    } else if new_factor == 0 {
        Some(CreditError::InvalidEmissionFactor)
    } else {
        None
    }
}

/// Locate the record for a device identifier, if one exists.
fn find_device(devices: &Vec<DeviceAccount>, id: &Vec<u8>) -> (r: Option<usize>)
    requires
        dev_keys_distinct(devices@),
    ensures
        match r {
            Some(i) => 0 <= i < devices@.len() && devices@[i as int].device_id@ == id@ && dev_get(
                devices@,
                id@,
            ) == Some(devices@[i as int]),
            None => dev_get(devices@, id@) is None,
        },
{
    let n = devices.len();
    let mut i: usize = 0;
    while i < n
        invariant
            n == devices@.len(),
            i <= n,
            dev_keys_distinct(devices@),
            forall|j: int| 0 <= j < i ==> (#[trigger] devices@[j]).device_id@ != id@,
        decreases n - i,
    {
        if bytes_eq(&devices[i].device_id, id) {
            proof {
                lemma_dev_at(devices@, i as int);
            }
            return Some(i);
        }
        i += 1;
    }
    proof {
        if dev_has(devices@, id@) {
            let j = dev_ix(devices@, id@);
            assert(0 <= j < devices@.len() && devices@[j].device_id@ == id@);
        }
    }
    None
}

/// Locate the entry for an account identifier, if one exists.
fn find_account(accounts: &Vec<AccountEntry>, account: u64) -> (r: Option<usize>)
    requires
        acc_keys_distinct(accounts@),
    ensures
        match r {
            Some(i) => 0 <= i < accounts@.len() && accounts@[i as int].account == account
                && acc_get(accounts@, account) == Some(accounts@[i as int]),
            None => acc_get(accounts@, account) is None,
        },
{
    let n = accounts.len();
    let mut i: usize = 0;
    while i < n
        invariant
            n == accounts@.len(),
            i <= n,
            acc_keys_distinct(accounts@),
            forall|j: int| 0 <= j < i ==> (#[trigger] accounts@[j]).account != account,
        decreases n - i,
    {
        if accounts[i].account == account {
            proof {
                lemma_acc_at(accounts@, i as int);
            }
            return Some(i);
        }
        i += 1;
    }
    proof {
        if acc_has(accounts@, account) {
            let j = acc_ix(accounts@, account);
            assert(0 <= j < accounts@.len() && accounts@[j].account == account);
        }
    }
    None
}

impl CreditEngine {
    /// Pending (not yet claimed) energy recorded for a device, in Wh.
    pub fn energy_accumulated(&self, device_id: &Vec<u8>) -> (r: u128)
        requires
            self.wf(),
        ensures
            r == self@.pending[device_id@],
    {
        match find_device(&self.devices, device_id) {
            Some(i) => self.devices[i].pending_wh,
            None => 0,
        }
    }

    /// Lifetime energy ever recorded for a device, in Wh.
    pub fn total_energy(&self, device_id: &Vec<u8>) -> (r: u128)
        requires
            self.wf(),
        ensures
            r == self@.lifetime[device_id@],
    {
        match find_device(&self.devices, device_id) {
            Some(i) => self.devices[i].lifetime_wh,
            None => 0,
        }
    }

    /// Credit balance of a device.
    pub fn credits_balance(&self, device_id: &Vec<u8>) -> (r: u128)
        requires
            self.wf(),
        ensures
            r == self@.credits[device_id@],
    {
        match find_device(&self.devices, device_id) {
            Some(i) => self.devices[i].credits,
            None => 0,
        }
    }

    /// Number of claims a device has completed.
    pub fn issuance_count(&self, device_id: &Vec<u8>) -> (r: u32)
        requires
            self.wf(),
        ensures
            r == self@.issuances[device_id@],
    {
        match find_device(&self.devices, device_id) {
            Some(i) => self.devices[i].issuances,
            None => 0,
        }
    }

    /// Credit balance of an externally held account.
    pub fn account_credits(&self, account: u64) -> (r: u128)
        requires
            self.wf(),
        ensures
            r == self@.accounts[account],
    {
        match find_account(&self.accounts, account) {
            Some(i) => self.accounts[i].credits,
            None => 0,
        }
    }

    /// The current emission factor (kg CO2 per kWh, scaled by 1000).
    pub fn emission_factor(&self) -> (r: u32)
        ensures
            r == self@.emission_factor,
    {
        self.emission_factor
    }

    /// Credits ever issued across all devices.
    pub fn total_credits_issued(&self) -> (r: u128)
        ensures
            r == self@.total_credits,
    {
        self.total_credits_issued
    }

    /// CO2 ever avoided, in whole kilograms.
    pub fn total_co2_avoided(&self) -> (r: u128)
        ensures
            r == self@.total_co2,
    {
        self.total_co2_avoided
    }

    /// Number of devices that have recorded energy at least once.
    pub fn active_device_count(&self) -> (r: u32)
        ensures
            r == self@.active_devices,
    {
        self.active_devices
    }

    /// Credit balance of a device; alias of [`Self::credits_balance`].
    pub fn get_device_credits(&self, device_id: &Vec<u8>) -> (r: u128)
        requires
            self.wf(),
        ensures
            r == self@.credits[device_id@],
    {
        self.credits_balance(device_id)
    }

    /// Pending energy of a device; alias of [`Self::energy_accumulated`].
    pub fn get_pending_energy(&self, device_id: &Vec<u8>) -> (r: u128)
        requires
            self.wf(),
        ensures
            r == self@.pending[device_id@],
    {
        self.energy_accumulated(device_id)
    }

    /// Summary of the global aggregates: credits issued, CO2 avoided,
    /// active devices.
    pub fn get_stats(&self) -> (r: (u128, u128, u32))
        ensures
            r.0 == self@.total_credits,
            r.1 == self@.total_co2,
            r.2 == self@.active_devices,
    {
        (self.total_credits_issued, self.total_co2_avoided, self.active_devices)
    }

    /// Record energy usage for a device.
    ///
    /// The energy is added (saturating) to the device's pending and
    /// lifetime totals; a device recording for the first time is counted
    /// as active. Succeeds for every identifier within the length bound,
    /// with the new pending total as its result; performs no mutation on
    /// failure.
    pub fn record_energy(
        &mut self,
        _actor: Actor,
        device_id: Vec<u8>,
        energy_wh: u128,
        _correlation_id: Option<u64>,
    ) -> (r: Result<u128, CreditError>)
        requires
            old(self).wf(),
        ensures
            final(self).wf(),
            match r {
                Ok(total) => {
                    &&& spec_record_energy_error(device_id@) is None
                    &&& final(self)@ == spec_record_energy(old(self)@, device_id@, energy_wh)
                    &&& total == final(self)@.pending[device_id@]
                },
                Err(e) => {
                    &&& Some(e) == spec_record_energy_error(device_id@)
                    &&& final(self)@ == old(self)@
                },
            },
    {
        if device_id.len() > MAX_DEVICE_ID_LENGTH {
            return Err(CreditError::DeviceIdTooLong);
        }
        let ghost pre = *self;
        let ghost d = device_id@;
        match find_device(&self.devices, &device_id) {
            Some(i) => {
                let was_zero = self.devices[i].pending_wh == 0 && self.devices[i].lifetime_wh
                    == 0;
                let new_pending = sat_add_u128(self.devices[i].pending_wh, energy_wh);
                let new_lifetime = sat_add_u128(self.devices[i].lifetime_wh, energy_wh);
                let entry = &mut self.devices[i];
                entry.pending_wh = new_pending;
                entry.lifetime_wh = new_lifetime;
                if was_zero {
                    self.active_devices = sat_add_u32(self.active_devices, 1);
                }
                proof {
                    let e2 = self.devices@[i as int];
                    assert(e2.device_id@ == d);
                    lemma_dev_update(pre.devices@, i as int, e2);
                    assert(forall|n: int|
                        0 <= n < pre.devices@.len() ==> (#[trigger] self.devices@[n]).device_id@
                            == pre.devices@[n].device_id@);
                    assert(self.wf());
                    assert(self@ =~= spec_record_energy(pre@, d, energy_wh));
                }
                Ok(new_pending)
            },
            None => {
                let entry = DeviceAccount {
                    device_id,
                    pending_wh: energy_wh,
                    lifetime_wh: energy_wh,
                    credits: 0,
                    issuances: 0,
                };
                self.devices.push(entry);
                self.active_devices = sat_add_u32(self.active_devices, 1);
                proof {
                    lemma_dev_push(pre.devices@, entry);
                    assert(self.wf());
                    assert(pre@.pending[d] == 0 && pre@.lifetime[d] == 0);
                    assert(self@ =~= spec_record_energy(pre@, d, energy_wh));
                }
                Ok(energy_wh)
            },
        }
    }

    /// Claim the credits the device's pending energy has earned.
    ///
    /// The yield is a deterministic function of the pending energy and
    /// the emission factor at claim time (see [`spec_credit_yield`]);
    /// a claim that would yield zero credits fails instead, and a failed
    /// claim performs no mutation. On success the pending energy resets
    /// to zero while the lifetime total is untouched.
    pub fn claim_credits(&mut self, _actor: Actor, device_id: Vec<u8>) -> (r: Result<
        ClaimReceipt,
        CreditError,
    >)
        requires
            old(self).wf(),
        ensures
            final(self).wf(),
            match r {
                Ok(receipt) => {
                    &&& spec_claim_error(old(self)@, device_id@) is None
                    &&& final(self)@ == spec_claim(old(self)@, device_id@)
                    &&& receipt.energy_wh == old(self)@.pending[device_id@]
                    &&& receipt.co2_avoided_kg == spec_co2_kg(
                        old(self)@.pending[device_id@],
                        old(self)@.emission_factor,
                    )
                    &&& receipt.credits == spec_credit_yield(
                        old(self)@.pending[device_id@],
                        old(self)@.emission_factor,
                    )
                },
                Err(e) => {
                    &&& Some(e) == spec_claim_error(old(self)@, device_id@)
                    &&& final(self)@ == old(self)@
                },
            },
    {
        if device_id.len() > MAX_DEVICE_ID_LENGTH {
            return Err(CreditError::DeviceIdTooLong);
        }
        let ghost pre = *self;
        let ghost d = device_id@;
        let i = match find_device(&self.devices, &device_id) {
            Some(i) => i,
            None => {
                return Err(CreditError::NoCreditsAvailable);
            },
        };
        let accumulated = self.devices[i].pending_wh;
        if accumulated == 0 {
            return Err(CreditError::NoCreditsAvailable);
        }
        if accumulated < MIN_CLAIMABLE_ENERGY {
            return Err(CreditError::EnergyBelowMinimum);
        }
        let factor = self.emission_factor;
        let energy_kwh = accumulated / 1000;
        let co2_scaled = sat_mul_u128(energy_kwh, factor as u128);
        let co2_avoided_kg = match co2_scaled.checked_div(1000) {
            Some(v) => v,
            None => {
                return Err(CreditError::Overflow);
            },
        };
        if co2_avoided_kg == 0 {
            return Err(CreditError::NoCreditsAvailable);
        }
        let credit_scaled = sat_mul_u128(co2_avoided_kg, CREDITS_PER_TON_CO2);
        let credits = match credit_scaled.checked_div(1000) {
            Some(v) => v,
            None => {
                return Err(CreditError::Overflow);
            },
        };
        if credits == 0 {
            return Err(CreditError::NoCreditsAvailable);
        }
        let new_balance = sat_add_u128(self.devices[i].credits, credits);
        let new_issuances = sat_add_u32(self.devices[i].issuances, 1);
        let entry = &mut self.devices[i];
        entry.pending_wh = 0;
        entry.credits = new_balance;
        entry.issuances = new_issuances;
        self.total_credits_issued = sat_add_u128(self.total_credits_issued, credits);
        self.total_co2_avoided = sat_add_u128(self.total_co2_avoided, co2_avoided_kg);
        proof {
            let e2 = self.devices@[i as int];
            assert(e2.device_id@ == d);
            lemma_dev_update(pre.devices@, i as int, e2);
            assert(forall|n: int|
                0 <= n < pre.devices@.len() ==> (#[trigger] self.devices@[n]).device_id@
                    == pre.devices@[n].device_id@);
            assert(self.wf());
            assert(co2_avoided_kg == spec_co2_kg(pre@.pending[d], pre@.emission_factor));
            assert(credits == spec_credit_yield(pre@.pending[d], pre@.emission_factor));
            assert(self@ =~= spec_claim(pre@, d));
        }
        Ok(ClaimReceipt { credits, energy_wh: accumulated, co2_avoided_kg })
    }

    /// Move credits between two device balances.
    ///
    /// Requires distinct devices and a source balance covering the
    /// amount; performs no mutation on failure.
    pub fn transfer_credits(
        &mut self,
        _actor: Actor,
        from_device: Vec<u8>,
        to_device: Vec<u8>,
        amount: u128,
    ) -> (r: Result<(), CreditError>)
        requires
            old(self).wf(),
        ensures
            final(self).wf(),
            match r {
                Ok(u) => {
                    &&& spec_transfer_error(old(self)@, from_device@, to_device@, amount) is None
                    &&& final(self)@ == spec_transfer(old(self)@, from_device@, to_device@, amount)
                },
                Err(e) => {
                    &&& Some(e) == spec_transfer_error(old(self)@, from_device@, to_device@, amount)
                    &&& final(self)@ == old(self)@
                },
            },
    {
        if from_device.len() > MAX_DEVICE_ID_LENGTH {
            return Err(CreditError::DeviceIdTooLong);
        }
        if to_device.len() > MAX_DEVICE_ID_LENGTH {
            return Err(CreditError::DeviceIdTooLong);
        }
        if bytes_eq(&from_device, &to_device) {
            return Err(CreditError::SameDeviceTransfer);
        }
        let ghost pre = *self;
        let ghost from = from_device@;
        let ghost to = to_device@;
        match find_device(&self.devices, &from_device) {
            Some(i) => {
                let balance = self.devices[i].credits;
                if balance < amount {
                    return Err(CreditError::InsufficientCredits);
                }
                let entry = &mut self.devices[i];
                entry.credits = balance - amount;
                proof {
                    let e2 = self.devices@[i as int];
                    assert(e2.device_id@ == from);
                    lemma_dev_update(pre.devices@, i as int, e2);
                    assert(forall|n: int|
                        0 <= n < pre.devices@.len() ==> (#[trigger] self.devices@[n]).device_id@
                            == pre.devices@[n].device_id@);
                    assert(self.wf());
                }
            },
            None => {
                if amount > 0 {
                    return Err(CreditError::InsufficientCredits);
                }
            },
        }
        let ghost mid = *self;
        match find_device(&self.devices, &to_device) {
            Some(j) => {
                let new_balance = sat_add_u128(self.devices[j].credits, amount);
                let entry = &mut self.devices[j];
                entry.credits = new_balance;
                proof {
                    let e2 = self.devices@[j as int];
                    assert(e2.device_id@ == to);
                    lemma_dev_update(mid.devices@, j as int, e2);
                    assert(forall|n: int|
                        0 <= n < mid.devices@.len() ==> (#[trigger] self.devices@[n]).device_id@
                            == mid.devices@[n].device_id@);
                    assert(self.wf());
                    assert(self@ =~= spec_transfer(pre@, from, to, amount));
                }
            },
            None => {
                let entry = DeviceAccount {
                    device_id: to_device,
                    pending_wh: 0,
                    lifetime_wh: 0,
                    credits: amount,
                    issuances: 0,
                };
                self.devices.push(entry);
                proof {
                    lemma_dev_push(mid.devices@, entry);
                    assert(self.wf());
                    assert(self@ =~= spec_transfer(pre@, from, to, amount));
                }
            },
        }
        Ok(())
    }

    /// Move credits from a device balance to the actor's account balance.
    ///
    /// Requires a device balance covering the amount; performs no
    /// mutation on failure. This is the only path from the device balance
    /// space into the account balance space, and there is none back.
    pub fn withdraw_credits(&mut self, actor: Actor, device_id: Vec<u8>, amount: u128) -> (r:
        Result<(), CreditError>)
        requires
            old(self).wf(),
        ensures
            final(self).wf(),
            match r {
                Ok(u) => {
                    &&& spec_withdraw_error(old(self)@, device_id@, amount) is None
                    &&& final(self)@ == spec_withdraw(old(self)@, device_id@, actor.account, amount)
                },
                Err(e) => {
                    &&& Some(e) == spec_withdraw_error(old(self)@, device_id@, amount)
                    &&& final(self)@ == old(self)@
                },
            },
    {
        if device_id.len() > MAX_DEVICE_ID_LENGTH {
            return Err(CreditError::DeviceIdTooLong);
        }
        let ghost pre = *self;
        let ghost d = device_id@;
        match find_device(&self.devices, &device_id) {
            Some(i) => {
                let balance = self.devices[i].credits;
                if balance < amount {
                    return Err(CreditError::InsufficientCredits);
                }
                let entry = &mut self.devices[i];
                entry.credits = balance - amount;
                proof {
                    let e2 = self.devices@[i as int];
                    assert(e2.device_id@ == d);
                    lemma_dev_update(pre.devices@, i as int, e2);
                    assert(forall|n: int|
                        0 <= n < pre.devices@.len() ==> (#[trigger] self.devices@[n]).device_id@
                            == pre.devices@[n].device_id@);
                    assert(self.wf());
                }
            },
            None => {
                if amount > 0 {
                    return Err(CreditError::InsufficientCredits);
                }
            },
        }
        let ghost mid = *self;
        match find_account(&self.accounts, actor.account) {
            Some(j) => {
                let new_balance = sat_add_u128(self.accounts[j].credits, amount);
                let entry = &mut self.accounts[j];
                entry.credits = new_balance;
                proof {
                    let e2 = self.accounts@[j as int];
                    assert(e2.account == actor.account);
                    lemma_acc_update(mid.accounts@, j as int, e2);
                    assert(self.wf());
                    assert(self@ =~= spec_withdraw(pre@, d, actor.account, amount));
                }
            },
            None => {
                let entry = AccountEntry { account: actor.account, credits: amount };
                self.accounts.push(entry);
                proof {
                    lemma_acc_push(mid.accounts@, entry);
                    assert(self.wf());
                    assert(self@ =~= spec_withdraw(pre@, d, actor.account, amount));
                }
            },
        }
        Ok(())
    }

    /// Replace the emission factor; a governance operation.
    ///
    /// Only a privileged actor may call it, and the new factor must be
    /// positive. Returns the factor that was replaced. Takes effect for
    /// subsequent claims only; past issuances are not recomputed.
    pub fn set_emission_factor(&mut self, actor: Actor, new_factor: u32) -> (r: Result<
        u32,
        CreditError,
    >)
        requires
            old(self).wf(),
        ensures
            final(self).wf(),
            match r {
                Ok(old_factor) => {
                    &&& spec_set_factor_error(actor, new_factor) is None
                    &&& old_factor == old(self)@.emission_factor
                    &&& final(self)@ == spec_set_factor(old(self)@, new_factor)
                },
                Err(e) => {
                    &&& Some(e) == spec_set_factor_error(actor, new_factor)
                    &&& final(self)@ == old(self)@
                },
            },
    {
        if !actor.privileged {
            return Err(CreditError::NotAuthorized);
        }
        if new_factor == 0 {
            return Err(CreditError::InvalidEmissionFactor);
        }
        let ghost pre = *self;
        let old_factor = self.emission_factor;
        self.emission_factor = new_factor;
        proof {
            assert(self@ =~= spec_set_factor(pre@, new_factor));
        }
        Ok(old_factor)
    }

    /// Credits that a claim would issue right now for the given energy,
    /// without mutating anything. Numerically identical to the claim
    /// path: both return [`spec_credit_yield`] of the energy and the
    /// current emission factor.
    pub fn calculate_credits(&self, energy_wh: u128) -> (r: u128)
        ensures
            r == spec_credit_yield(energy_wh, self@.emission_factor),
    {
        let factor = self.emission_factor;
        let energy_kwh = energy_wh / 1000;
        let co2_avoided_kg = sat_mul_u128(energy_kwh, factor as u128) / 1000;
        sat_mul_u128(co2_avoided_kg, CREDITS_PER_TON_CO2) / 1000
    }
}

} // verus!
