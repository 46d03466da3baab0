use laurn::delta::{DeltaOp, StateDelta, MAX_DELTA_OPS};

#[test]
fn test_empty_delta_is_within_bounds() {
    let delta = StateDelta::new(vec![]);
    assert!(delta.validate_bounds());
}

#[test]
fn test_delta_at_maximum_bound_is_valid() {
    let op = DeltaOp::RemoveEntity { entity_id: 1 };
    let delta = StateDelta::new(vec![op; MAX_DELTA_OPS]);

    assert!(delta.validate_bounds());
}

#[test]
fn test_delta_above_maximum_bound_is_rejected() {
    let op = DeltaOp::RemoveEntity { entity_id: 1 };
    let delta = StateDelta::new(vec![op; MAX_DELTA_OPS + 1]);

    assert!(!delta.validate_bounds());
}

#[test]
fn new_keeps_the_operations_in_order() {
    let ops = vec![
        DeltaOp::RemoveEntity { entity_id: 3 },
        DeltaOp::AddEntity { entity_id: 4, data: vec![1] },
    ];
    let delta = StateDelta::new(ops.clone());
    assert_eq!(delta.ops, ops);
}
