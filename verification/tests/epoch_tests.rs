use laurn::commitment::StateCommitment;
use laurn::epoch::{Epoch, EpochEngine, EpochId, EpochStatus};

fn generate_test_epoch(id: u8, start: u64, exp: u64) -> Epoch {
    Epoch {
        id: EpochId([id; 32]),
        sequence: u64::from(id),
        start_time_ms: start,
        expiration_time_ms: exp,
        status: EpochStatus::Pending,
        initial_state: StateCommitment([0u8; 32]),
    }
}

#[test]
fn test_epoch_activation_closes_previous() -> Result<(), Box<dyn std::error::Error>> {
    let mut engine = EpochEngine::new();
    let e1 = generate_test_epoch(1, 100, 200);
    let e2 = generate_test_epoch(2, 200, 300);

    engine.register_epoch(e1.clone())?;
    engine.register_epoch(e2.clone())?;

    engine.activate_epoch(e1.id)?;
    assert_eq!(engine.get(&e1.id).ok_or("missing epoch e1")?.status, EpochStatus::Active);

    // Activate E2, should close E1
    engine.activate_epoch(e2.id)?;
    assert_eq!(engine.get(&e1.id).ok_or("missing epoch e1")?.status, EpochStatus::Closed);
    assert_eq!(engine.get(&e2.id).ok_or("missing epoch e2")?.status, EpochStatus::Active);
    Ok(())
}

#[test]
fn test_stale_epoch_rejection() -> Result<(), Box<dyn std::error::Error>> {
    let mut engine = EpochEngine::new();
    let e1 = generate_test_epoch(1, 1000, 2000);

    engine.register_epoch(e1.clone())?;
    engine.activate_epoch(e1.id)?;

    // 2000 is exactly at expiration (stale)
    assert!(!engine.validate_transition_binding(&e1.id, 2000));
    // 2500 is way past expiration (stale)
    assert!(!engine.validate_transition_binding(&e1.id, 2500));
    // 1500 is within window (valid)
    assert!(engine.validate_transition_binding(&e1.id, 1500));
    Ok(())
}

#[test]
fn test_future_epoch_rejection() -> Result<(), Box<dyn std::error::Error>> {
    let mut engine = EpochEngine::new();
    let e1 = generate_test_epoch(1, 1000, 2000);

    engine.register_epoch(e1.clone())?;
    engine.activate_epoch(e1.id)?;

    // 999 is before the epoch started
    assert!(!engine.validate_transition_binding(&e1.id, 999));
    Ok(())
}

#[test]
fn test_inactive_epoch_rejection() -> Result<(), Box<dyn std::error::Error>> {
    let mut engine = EpochEngine::new();
    let e1 = generate_test_epoch(1, 1000, 2000);

    engine.register_epoch(e1.clone())?;

    // E1 is still Pending, not active
    assert!(!engine.validate_transition_binding(&e1.id, 1500));

    engine.activate_epoch(e1.id)?;
    engine.close_epoch(e1.id)?;

    // E1 is now Closed
    assert!(!engine.validate_transition_binding(&e1.id, 1500));
    Ok(())
}

#[test]
fn duplicate_registration_is_refused() {
    let mut engine = EpochEngine::new();
    let e1 = generate_test_epoch(1, 1000, 2000);
    assert_eq!(engine.register_epoch(e1), Ok(()));
    assert_eq!(engine.register_epoch(e1), Err("Epoch ID already exists"));
}

#[test]
fn activation_errors() {
    let mut engine = EpochEngine::new();
    let e1 = generate_test_epoch(1, 1000, 2000);
    assert_eq!(engine.activate_epoch(e1.id), Err("Epoch not found"));
    engine.register_epoch(e1).unwrap();
    engine.close_epoch(e1.id).unwrap();
    assert_eq!(engine.activate_epoch(e1.id), Err("Cannot activate a closed epoch"));
    assert_eq!(engine.close_epoch(EpochId([9; 32])), Err("Epoch not found"));
}

#[test]
fn start_time_is_inclusive_and_other_epochs_do_not_bind() {
    let mut engine = EpochEngine::new();
    let e1 = generate_test_epoch(1, 1000, 2000);
    let e2 = generate_test_epoch(2, 1000, 2000);
    engine.register_epoch(e1).unwrap();
    engine.register_epoch(e2).unwrap();
    engine.activate_epoch(e1.id).unwrap();
    assert!(engine.validate_transition_binding(&e1.id, 1000));
    assert!(engine.validate_transition_binding(&e1.id, 1999));
    // A registered but inactive epoch binds nothing.
    assert!(!engine.validate_transition_binding(&e2.id, 1500));
    // Reactivating the active epoch keeps it active.
    engine.activate_epoch(e1.id).unwrap();
    assert_eq!(engine.get(&e1.id).unwrap().status, EpochStatus::Active);
    assert!(engine.get(&EpochId([7; 32])).is_none());
}

#[test]
fn registered_epochs_start_pending() {
    let mut engine = EpochEngine::new();
    let mut e1 = generate_test_epoch(1, 1000, 2000);
    e1.status = EpochStatus::Active;
    engine.register_epoch(e1).unwrap();
    assert_eq!(engine.get(&e1.id).unwrap().status, EpochStatus::Pending);
    assert!(!engine.validate_transition_binding(&e1.id, 1500));

    let e2 = generate_test_epoch(2, 1000, 2000);
    engine.register_epoch(e2).unwrap();
    engine.activate_epoch(e1.id).unwrap();
    engine.activate_epoch(e2.id).unwrap();
    assert_eq!(engine.get(&e1.id).unwrap().status, EpochStatus::Closed);
    assert_eq!(engine.get(&e2.id).unwrap().status, EpochStatus::Active);
}
