use laurn::transition::TransitionId;
use laurn::verification::replay::{ReplayBuffer, DEFAULT_MAX_REPLAY_HISTORY};

#[test]
fn test_replay_buffer_capacity() {
    let mut buffer = ReplayBuffer::new(3);

    // Insert 3 items
    assert!(buffer.insert(TransitionId(1)));
    assert!(buffer.insert(TransitionId(2)));
    assert!(buffer.insert(TransitionId(3)));

    assert!(buffer.contains(&TransitionId(1)));
    assert!(buffer.contains(&TransitionId(2)));
    assert!(buffer.contains(&TransitionId(3)));

    // Insert a 4th item, should evict 1
    assert!(buffer.insert(TransitionId(4)));

    assert!(!buffer.contains(&TransitionId(1)));
    assert!(buffer.contains(&TransitionId(2)));
    assert!(buffer.contains(&TransitionId(3)));
    assert!(buffer.contains(&TransitionId(4)));
}

#[test]
fn test_replay_buffer_duplicate() {
    let mut buffer = ReplayBuffer::new(10);
    assert!(buffer.insert(TransitionId(1)));
    assert!(!buffer.insert(TransitionId(1)));
}

#[test]
fn clear_forgets_everything() {
    let mut buffer = ReplayBuffer::default();
    for i in 0..10 {
        assert!(buffer.insert(TransitionId(i)));
    }
    buffer.clear();
    for i in 0..10 {
        assert!(!buffer.contains(&TransitionId(i)));
    }
    assert!(buffer.insert(TransitionId(3)));
}

#[test]
fn default_capacity_evicts_oldest_only_when_full() {
    let mut buffer = ReplayBuffer::default();
    for i in 0..DEFAULT_MAX_REPLAY_HISTORY as u64 {
        assert!(buffer.insert(TransitionId(i)));
    }
    assert!(buffer.contains(&TransitionId(0)));
    assert!(buffer.insert(TransitionId(10_000)));
    assert!(!buffer.contains(&TransitionId(0)));
    assert!(buffer.contains(&TransitionId(1)));
}

#[test]
fn duplicate_does_not_evict() {
    let mut buffer = ReplayBuffer::new(2);
    assert!(buffer.insert(TransitionId(1)));
    assert!(buffer.insert(TransitionId(2)));
    assert!(!buffer.insert(TransitionId(2)));
    assert!(buffer.contains(&TransitionId(1)));
}

#[test]
fn zero_capacity_keeps_only_the_latest() {
    let mut buffer = ReplayBuffer::new(0);
    assert!(buffer.insert(TransitionId(1)));
    assert!(buffer.contains(&TransitionId(1)));
    assert!(buffer.insert(TransitionId(2)));
    assert!(!buffer.contains(&TransitionId(1)));
    assert!(buffer.contains(&TransitionId(2)));
}

#[test]
fn clones_remember_the_same_transitions() {
    let mut buffer = ReplayBuffer::new(2);
    assert!(buffer.insert(TransitionId(1)));
    assert!(buffer.insert(TransitionId(2)));
    let mut copy = buffer.clone();
    assert!(copy.contains(&TransitionId(1)));
    assert!(copy.contains(&TransitionId(2)));
    assert!(copy.insert(TransitionId(3)));
    assert!(!copy.contains(&TransitionId(1)));
    assert!(buffer.contains(&TransitionId(1)));
}
