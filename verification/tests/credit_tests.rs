use carbon_ledger::credits::{Actor, CreditEngine};
use carbon_ledger::errors::CreditError;
use carbon_ledger::ident::device_id;

#[test]
fn record_energy_works() {
    let mut engine = CreditEngine::new();
    let dev = device_id("device-001");

    let r = engine.record_energy(Actor::signed(1), dev.clone(), 5000, None);
    assert!(r.is_ok());

    assert_eq!(engine.energy_accumulated(&dev), 5000);
    assert_eq!(engine.total_energy(&dev), 5000);
    assert_eq!(engine.active_device_count(), 1);
}

#[test]
fn record_energy_accumulates() {
    let mut engine = CreditEngine::new();
    let dev = device_id("device-001");

    assert!(engine.record_energy(Actor::signed(1), dev.clone(), 3000, None).is_ok());
    assert!(engine.record_energy(Actor::signed(1), dev.clone(), 2000, None).is_ok());

    assert_eq!(engine.energy_accumulated(&dev), 5000);
    assert_eq!(engine.total_energy(&dev), 5000);
    assert_eq!(engine.active_device_count(), 1);
}

#[test]
fn claim_credits_works() {
    let mut engine = CreditEngine::new();
    let dev = device_id("device-001");

    assert!(engine.record_energy(Actor::signed(1), dev.clone(), 10_000, None).is_ok());
    assert!(engine.claim_credits(Actor::signed(1), dev.clone()).is_ok());

    assert_eq!(engine.energy_accumulated(&dev), 0);
    // energy_kwh = 10000 / 1000 = 10 kWh
    // co2_avoided_kg = 10 * 1500 / 1000 = 15 kg
    // credits = 15 * 1000 / 1000 = 15 credits
    assert_eq!(engine.credits_balance(&dev), 15);
    assert_eq!(engine.total_credits_issued(), 15);
    assert_eq!(engine.total_co2_avoided(), 15);
    assert_eq!(engine.issuance_count(&dev), 1);
}

#[test]
fn claim_credits_requires_minimum_energy() {
    let mut engine = CreditEngine::new();
    let dev = device_id("device-001");

    assert!(engine.record_energy(Actor::signed(1), dev.clone(), 500, None).is_ok());
    let r = engine.claim_credits(Actor::signed(1), dev);
    assert!(matches!(r, Err(CreditError::EnergyBelowMinimum)));
}

#[test]
fn claim_credits_fails_with_no_energy() {
    let mut engine = CreditEngine::new();
    let dev = device_id("device-001");

    let r = engine.claim_credits(Actor::signed(1), dev);
    assert!(matches!(r, Err(CreditError::NoCreditsAvailable)));
}

#[test]
fn transfer_credits_works() {
    let mut engine = CreditEngine::new();
    let dev1 = device_id("device-001");
    let dev2 = device_id("device-002");

    assert!(engine.record_energy(Actor::signed(1), dev1.clone(), 100_000, None).is_ok());
    assert!(engine.claim_credits(Actor::signed(1), dev1.clone()).is_ok());

    let initial_balance = engine.credits_balance(&dev1);
    assert!(initial_balance > 0);

    let transfer_amount = initial_balance / 2;
    assert!(
        engine
            .transfer_credits(Actor::signed(1), dev1.clone(), dev2.clone(), transfer_amount)
            .is_ok()
    );

    assert_eq!(engine.credits_balance(&dev1), initial_balance - transfer_amount);
    assert_eq!(engine.credits_balance(&dev2), transfer_amount);
}

#[test]
fn transfer_credits_fails_insufficient_balance() {
    let mut engine = CreditEngine::new();
    let dev1 = device_id("device-001");
    let dev2 = device_id("device-002");

    let r = engine.transfer_credits(Actor::signed(1), dev1, dev2, 100);
    assert!(matches!(r, Err(CreditError::InsufficientCredits)));
}

#[test]
fn transfer_credits_fails_same_device() {
    let mut engine = CreditEngine::new();
    let dev1 = device_id("device-001");

    let r = engine.transfer_credits(Actor::signed(1), dev1.clone(), dev1, 100);
    assert!(matches!(r, Err(CreditError::SameDeviceTransfer)));
}

#[test]
fn withdraw_credits_works() {
    let mut engine = CreditEngine::new();
    let dev = device_id("device-001");
    let account: u64 = 42;

    assert!(engine.record_energy(Actor::signed(1), dev.clone(), 100_000, None).is_ok());
    assert!(engine.claim_credits(Actor::signed(1), dev.clone()).is_ok());

    let device_balance = engine.credits_balance(&dev);
    let withdraw_amount = device_balance / 2;
    assert!(
        engine.withdraw_credits(Actor::signed(account), dev.clone(), withdraw_amount).is_ok()
    );

    assert_eq!(engine.credits_balance(&dev), device_balance - withdraw_amount);
    assert_eq!(engine.account_credits(account), withdraw_amount);
}

#[test]
fn set_emission_factor_works() {
    let mut engine = CreditEngine::new();
    assert_eq!(engine.emission_factor(), 1500);

    assert!(engine.set_emission_factor(Actor::root(0), 2000).is_ok());
    assert_eq!(engine.emission_factor(), 2000);
}

#[test]
fn set_emission_factor_requires_root() {
    let mut engine = CreditEngine::new();
    let r = engine.set_emission_factor(Actor::signed(1), 2000);
    assert!(matches!(r, Err(CreditError::NotAuthorized)));
}

#[test]
fn set_emission_factor_rejects_zero() {
    let mut engine = CreditEngine::new();
    let r = engine.set_emission_factor(Actor::root(0), 0);
    assert!(matches!(r, Err(CreditError::InvalidEmissionFactor)));
}

#[test]
fn calculate_credits_helper_works() {
    let engine = CreditEngine::new();
    // With the default emission factor of 1500 (1.5 kg/kWh) and 1000
    // credits per ton: 100 kWh = 150 kg CO2 = 0.15 ton = 150 credits.
    assert_eq!(engine.calculate_credits(100_000), 150);
    // 1000 kWh = 1500 kg = 1.5 ton = 1500 credits.
    assert_eq!(engine.calculate_credits(1_000_000), 1500);
}

#[test]
fn get_stats_works() {
    let mut engine = CreditEngine::new();
    let dev1 = device_id("device-001");
    let dev2 = device_id("device-002");

    assert!(engine.record_energy(Actor::signed(1), dev1.clone(), 50_000, None).is_ok());
    assert!(engine.record_energy(Actor::signed(1), dev2.clone(), 50_000, None).is_ok());

    assert!(engine.claim_credits(Actor::signed(1), dev1).is_ok());
    assert!(engine.claim_credits(Actor::signed(1), dev2).is_ok());

    let (total_credits, total_co2, active_devices) = engine.get_stats();
    assert!(total_credits > 0);
    assert!(total_co2 > 0);
    assert_eq!(active_devices, 2);
}

#[test]
fn total_energy_persists_after_claim() {
    let mut engine = CreditEngine::new();
    let dev = device_id("device-001");

    assert!(engine.record_energy(Actor::signed(1), dev.clone(), 10_000, None).is_ok());
    assert!(engine.claim_credits(Actor::signed(1), dev.clone()).is_ok());

    assert_eq!(engine.energy_accumulated(&dev), 0);
    assert_eq!(engine.total_energy(&dev), 10_000);

    assert!(engine.record_energy(Actor::signed(1), dev.clone(), 5_000, None).is_ok());

    assert_eq!(engine.energy_accumulated(&dev), 5_000);
    assert_eq!(engine.total_energy(&dev), 15_000);
}

#[test]
fn record_energy_rejects_too_long_device_id() {
    let mut engine = CreditEngine::new();
    let long_id = vec![b'a'; 100];
    let r = engine.record_energy(Actor::signed(1), long_id, 1000, None);
    assert!(matches!(r, Err(CreditError::DeviceIdTooLong)));
}

#[test]
fn record_energy_accepts_zero_energy() {
    let mut engine = CreditEngine::new();
    let dev = device_id("device-001");
    let r = engine.record_energy(Actor::signed(1), dev.clone(), 0, None);
    assert_eq!(r, Ok(0));
    assert_eq!(engine.energy_accumulated(&dev), 0);
    assert_eq!(engine.active_device_count(), 1);
}

#[test]
fn second_claim_fails_after_success() {
    let mut engine = CreditEngine::new();
    let dev = device_id("device-001");
    assert!(engine.record_energy(Actor::signed(1), dev.clone(), 10_000, None).is_ok());
    assert!(engine.claim_credits(Actor::signed(1), dev.clone()).is_ok());
    let second = engine.claim_credits(Actor::signed(1), dev);
    assert!(matches!(second, Err(CreditError::NoCreditsAvailable)));
}

#[test]
fn claim_receipt_reports_issued_amounts() {
    let mut engine = CreditEngine::new();
    let dev = device_id("device-001");
    assert!(engine.record_energy(Actor::signed(1), dev.clone(), 10_000, None).is_ok());
    let receipt = engine.claim_credits(Actor::signed(1), dev).unwrap();
    assert_eq!(receipt.credits, 15);
    assert_eq!(receipt.co2_avoided_kg, 15);
    assert_eq!(receipt.energy_wh, 10_000);
}

#[test]
fn claim_matches_calculate_credits_preview() {
    let mut engine = CreditEngine::new();
    let dev = device_id("device-001");
    assert!(engine.record_energy(Actor::signed(1), dev.clone(), 123_456, None).is_ok());
    let preview = engine.calculate_credits(123_456);
    let receipt = engine.claim_credits(Actor::signed(1), dev.clone()).unwrap();
    assert_eq!(receipt.credits, preview);
    assert_eq!(engine.credits_balance(&dev), preview);
}

#[test]
fn new_factor_applies_to_later_claims_only() {
    let mut engine = CreditEngine::new();
    let dev = device_id("device-001");
    assert!(engine.record_energy(Actor::signed(1), dev.clone(), 10_000, None).is_ok());
    let first = engine.claim_credits(Actor::signed(1), dev.clone()).unwrap();
    assert_eq!(first.credits, 15);

    assert_eq!(engine.set_emission_factor(Actor::root(0), 3000), Ok(1500));
    assert!(engine.record_energy(Actor::signed(1), dev.clone(), 10_000, None).is_ok());
    let second = engine.claim_credits(Actor::signed(1), dev).unwrap();
    assert_eq!(second.credits, 30);
    // The first issuance is not recomputed.
    assert_eq!(engine.total_credits_issued(), 45);
}

#[test]
fn transfer_conserves_total_balance() {
    let mut engine = CreditEngine::new();
    let dev1 = device_id("device-001");
    let dev2 = device_id("device-002");
    assert!(engine.record_energy(Actor::signed(1), dev1.clone(), 200_000, None).is_ok());
    assert!(engine.claim_credits(Actor::signed(1), dev1.clone()).is_ok());

    let before = engine.credits_balance(&dev1) + engine.credits_balance(&dev2);
    let issued_before = engine.total_credits_issued();
    assert!(engine.transfer_credits(Actor::signed(1), dev1.clone(), dev2.clone(), 77).is_ok());
    let after = engine.credits_balance(&dev1) + engine.credits_balance(&dev2);
    assert_eq!(before, after);
    assert_eq!(engine.total_credits_issued(), issued_before);
}

#[test]
fn withdraw_fails_insufficient_balance() {
    let mut engine = CreditEngine::new();
    let dev = device_id("device-001");
    let r = engine.withdraw_credits(Actor::signed(1), dev, 1);
    assert!(matches!(r, Err(CreditError::InsufficientCredits)));
}

#[test]
fn claim_below_credit_granularity_fails() {
    let mut engine = CreditEngine::new();
    // 1000 Wh = 1 kWh yields 1 * 1500 / 1000 = 1 kg CO2, and then
    // 1 * 1000 / 1000 = 1 credit; but with a small factor the CO2
    // truncates to zero and the claim must fail without mutating.
    assert_eq!(engine.set_emission_factor(Actor::root(0), 500), Ok(1500));
    let dev = device_id("device-001");
    assert!(engine.record_energy(Actor::signed(1), dev.clone(), 1000, None).is_ok());
    let r = engine.claim_credits(Actor::signed(1), dev.clone());
    assert!(matches!(r, Err(CreditError::NoCreditsAvailable)));
    assert_eq!(engine.energy_accumulated(&dev), 1000);
    assert_eq!(engine.issuance_count(&dev), 0);
}
