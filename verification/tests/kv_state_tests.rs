use laurn::delta::{CollectionChangeType, DeltaApplicable, DeltaError, DeltaOp, StateDelta};
use laurn::state::kv_state::KeyValueDomainState;
use laurn::state::DeterministicStateDomain;

#[test]
fn test_empty_delta() {
    let mut state = KeyValueDomainState::default();
    let delta = StateDelta::new(vec![]);

    assert_eq!(state.apply_delta(&delta), Ok(()));
}

#[test]
fn test_multi_operation_delta() {
    let mut state = KeyValueDomainState::default();

    let delta = StateDelta::new(vec![
        DeltaOp::AddEntity { entity_id: 1, data: vec![] },
        DeltaOp::AddEntity { entity_id: 2, data: vec![] },
        DeltaOp::UpdateField { entity_id: 1, component_id: 10, field_id: 20, data: vec![0xFF] },
        DeltaOp::RemoveEntity { entity_id: 2 },
    ]);

    assert_eq!(state.apply_delta(&delta), Ok(()));
    assert!(state.contains_entity(1));
    assert!(!state.contains_entity(2));
    assert_eq!(state.field(1, 10, 20), Some(vec![0xFF]));
}

#[test]
fn test_malformed_delta() {
    let mut state = KeyValueDomainState::default();
    state.insert_entity(1);

    let delta = StateDelta::new(vec![DeltaOp::UpdateField {
        entity_id: 1,
        component_id: 10,
        field_id: 20,
        data: vec![],
    }]);

    assert_eq!(state.apply_delta(&delta), Err(DeltaError::MalformedData("Field data is empty")));
}

#[test]
fn test_conflicting_delta() {
    let mut state = KeyValueDomainState::default();
    state.insert_entity(1);

    let delta = StateDelta::new(vec![
        DeltaOp::RemoveEntity { entity_id: 1 },
        DeltaOp::UpdateField { entity_id: 1, component_id: 10, field_id: 20, data: vec![0xAA] },
    ]);

    assert_eq!(
        state.apply_delta(&delta),
        Err(DeltaError::ConflictingDelta("Updating removed entity"))
    );
}

#[test]
fn test_deterministic_reconstruction() {
    let mut state1 = KeyValueDomainState::default();
    let mut state2 = KeyValueDomainState::default();

    let delta = StateDelta::new(vec![
        DeltaOp::AddEntity { entity_id: 100, data: vec![] },
        DeltaOp::UpdateField { entity_id: 100, component_id: 1, field_id: 2, data: vec![1, 2, 3] },
    ]);

    assert_eq!(state1.apply_delta(&delta), Ok(()));
    assert_eq!(state2.apply_delta(&delta), Ok(()));
    assert_eq!(state1, state2);
}

#[test]
fn refused_delta_changes_nothing() {
    let mut state = KeyValueDomainState::new();
    state.insert_entity(5);
    let before = state.canonicalize().unwrap();
    let delta = StateDelta::new(vec![
        DeltaOp::AddEntity { entity_id: 6, data: vec![] },
        DeltaOp::UpdateField { entity_id: 5, component_id: 1, field_id: 1, data: vec![1] },
        DeltaOp::AddEntity { entity_id: 5, data: vec![] },
    ]);
    assert_eq!(state.apply_delta(&delta), Err(DeltaError::EntityAlreadyExists(5)));
    assert_eq!(state.canonicalize().unwrap(), before);
    assert!(!state.contains_entity(6));
}

#[test]
fn every_error_kind() {
    let mut state = KeyValueDomainState::new();
    let missing = StateDelta::new(vec![DeltaOp::RemoveEntity { entity_id: 9 }]);
    assert_eq!(state.apply_delta(&missing), Err(DeltaError::EntityNotFound(9)));
    let coll_missing = StateDelta::new(vec![DeltaOp::CollectionChange {
        entity_id: 9,
        component_id: 0,
        collection_id: 0,
        change_type: CollectionChangeType::Clear,
        data: vec![],
    }]);
    assert_eq!(state.apply_delta(&coll_missing), Err(DeltaError::EntityNotFound(9)));
    let add_after_remove = StateDelta::new(vec![
        DeltaOp::AddEntity { entity_id: 1, data: vec![] },
        DeltaOp::RemoveEntity { entity_id: 1 },
        DeltaOp::AddEntity { entity_id: 1, data: vec![] },
    ]);
    assert_eq!(
        state.apply_delta(&add_after_remove),
        Err(DeltaError::ConflictingDelta("Adding and removing same entity"))
    );
}

#[test]
fn collections_follow_their_changes() {
    let mut state = KeyValueDomainState::new();
    let ops = vec![
        DeltaOp::AddEntity { entity_id: 1, data: vec![] },
        DeltaOp::CollectionChange {
            entity_id: 1,
            component_id: 2,
            collection_id: 3,
            change_type: CollectionChangeType::Insert,
            data: vec![7],
        },
        DeltaOp::CollectionChange {
            entity_id: 1,
            component_id: 2,
            collection_id: 3,
            change_type: CollectionChangeType::Insert,
            data: vec![8],
        },
        DeltaOp::CollectionChange {
            entity_id: 1,
            component_id: 2,
            collection_id: 3,
            change_type: CollectionChangeType::Remove,
            data: vec![7],
        },
    ];
    assert_eq!(state.apply_delta(&StateDelta::new(ops)), Ok(()));
    assert_eq!(state.collection(1, 2, 3), Some(vec![vec![8]]));
    let clear = StateDelta::new(vec![DeltaOp::CollectionChange {
        entity_id: 1,
        component_id: 2,
        collection_id: 3,
        change_type: CollectionChangeType::Clear,
        data: vec![],
    }]);
    assert_eq!(state.apply_delta(&clear), Ok(()));
    assert_eq!(state.collection(1, 2, 3), Some(vec![]));
    // Removing the entity drops its collections.
    let remove = StateDelta::new(vec![DeltaOp::RemoveEntity { entity_id: 1 }]);
    assert_eq!(state.apply_delta(&remove), Ok(()));
    assert_eq!(state.collection(1, 2, 3), None);
}

#[test]
fn canonical_bytes_are_sorted_and_insertion_order_free() {
    let mut a = KeyValueDomainState::new();
    let mut b = KeyValueDomainState::new();
    a.apply_delta(&StateDelta::new(vec![
        DeltaOp::AddEntity { entity_id: 2, data: vec![] },
        DeltaOp::AddEntity { entity_id: 1, data: vec![] },
        DeltaOp::UpdateField { entity_id: 2, component_id: 0, field_id: 0, data: vec![5] },
        DeltaOp::UpdateField { entity_id: 1, component_id: 0, field_id: 0, data: vec![4] },
    ]))
    .unwrap();
    b.apply_delta(&StateDelta::new(vec![
        DeltaOp::AddEntity { entity_id: 1, data: vec![] },
        DeltaOp::AddEntity { entity_id: 2, data: vec![] },
        DeltaOp::UpdateField { entity_id: 1, component_id: 0, field_id: 0, data: vec![4] },
        DeltaOp::UpdateField { entity_id: 2, component_id: 0, field_id: 0, data: vec![5] },
    ]))
    .unwrap();
    let bytes = a.canonicalize().unwrap();
    assert_eq!(bytes, b.canonicalize().unwrap());
    let mut expected = Vec::new();
    expected.extend_from_slice(&2u32.to_le_bytes());
    expected.extend_from_slice(&1u64.to_le_bytes());
    expected.extend_from_slice(&2u64.to_le_bytes());
    expected.extend_from_slice(&2u32.to_le_bytes());
    for (e, v) in [(1u64, 4u8), (2, 5)] {
        expected.extend_from_slice(&e.to_le_bytes());
        expected.extend_from_slice(&0u32.to_le_bytes());
        expected.extend_from_slice(&0u32.to_le_bytes());
        expected.extend_from_slice(&1u32.to_le_bytes());
        expected.push(v);
    }
    expected.extend_from_slice(&0u32.to_le_bytes());
    assert_eq!(bytes, expected);
}

#[test]
fn empty_state_canonical_bytes() {
    let s = KeyValueDomainState::new();
    assert_eq!(s.canonicalize().unwrap(), vec![0u8; 12]);
}

#[test]
fn removal_keeps_fields_and_collections_attached() {
    let mut state = KeyValueDomainState::new();
    let delta = StateDelta::new(vec![
        DeltaOp::AddEntity { entity_id: 1, data: vec![] },
        DeltaOp::UpdateField { entity_id: 1, component_id: 2, field_id: 3, data: vec![4] },
        DeltaOp::CollectionChange {
            entity_id: 1,
            component_id: 2,
            collection_id: 5,
            change_type: CollectionChangeType::Insert,
            data: vec![6],
        },
        DeltaOp::RemoveEntity { entity_id: 1 },
    ]);
    assert_eq!(state.apply_delta(&delta), Ok(()));
    assert!(!state.contains_entity(1));
    assert_eq!(state.field(1, 2, 3), None);
    assert_eq!(state.collection(1, 2, 5), None);
}

#[test]
fn collection_change_after_removal_is_let_through() {
    let mut state = KeyValueDomainState::new();
    state.insert_entity(1);
    let delta = StateDelta::new(vec![
        DeltaOp::RemoveEntity { entity_id: 1 },
        DeltaOp::CollectionChange {
            entity_id: 1,
            component_id: 0,
            collection_id: 0,
            change_type: CollectionChangeType::Insert,
            data: vec![9],
        },
    ]);
    assert_eq!(state.apply_delta(&delta), Ok(()));
    assert!(!state.contains_entity(1));
    assert_eq!(state.collection(1, 0, 0), Some(vec![vec![9]]));
}

#[test]
fn clones_hold_the_same_state() {
    let mut state = KeyValueDomainState::new();
    let delta = StateDelta::new(vec![
        DeltaOp::AddEntity { entity_id: 3, data: vec![] },
        DeltaOp::UpdateField { entity_id: 3, component_id: 1, field_id: 1, data: vec![5] },
    ]);
    assert_eq!(state.apply_delta(&delta), Ok(()));
    let copy = state.clone();
    assert_eq!(copy, state);
    assert_eq!(copy.canonicalize().unwrap(), state.canonicalize().unwrap());
}
