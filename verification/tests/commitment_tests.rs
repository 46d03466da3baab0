use laurn::commitment::{CommitmentEngine, StateCommitment, STATE_DOMAIN_V1, TRANSITION_DOMAIN_V1};
use laurn::transition::TransitionCommitment;

#[test]
fn test_domain_separation() {
    let payload = b"example payload";
    let state_hash = CommitmentEngine::compute(&STATE_DOMAIN_V1, payload);
    let trans_hash = CommitmentEngine::compute(&TRANSITION_DOMAIN_V1, payload);

    // Identical bytes must yield different hashes due to domain separation
    assert_ne!(state_hash, trans_hash);
}

#[test]
fn test_constant_time_eq() {
    let a = StateCommitment([0u8; 32]);
    let mut b_bytes = [0u8; 32];
    let mut c_bytes = [0u8; 32];
    b_bytes[0] = 1;
    c_bytes[31] = 1;

    let b = StateCommitment(b_bytes);
    let c = StateCommitment(c_bytes);

    assert_eq!(a, a);
    assert_ne!(a, b);
    assert_ne!(a, c);

    let choice: bool = a.ct_eq(&a);
    assert!(choice);
}

#[test]
fn test_mutation_avalanche() {
    let payload1 = b"test payload 1";
    let payload2 = b"test payload 2"; // Only 1 character different

    let hash1 = CommitmentEngine::compute(&STATE_DOMAIN_V1, payload1);
    let hash2 = CommitmentEngine::compute(&STATE_DOMAIN_V1, payload2);

    assert_ne!(hash1, hash2);
}

#[test]
fn domain_separators_spell_their_names() {
    assert_eq!(&STATE_DOMAIN_V1, b"LAURN_STATE_V1");
    assert_eq!(&TRANSITION_DOMAIN_V1, b"LAURN_TRANS_V1");
}

#[test]
fn compute_matches_blake3_of_domain_and_bytes() {
    let mut joined = Vec::new();
    joined.extend_from_slice(&STATE_DOMAIN_V1);
    joined.extend_from_slice(b"abc");
    let expected = *blake3::hash(&joined).as_bytes();
    assert_eq!(CommitmentEngine::compute(&STATE_DOMAIN_V1, b"abc"), expected);
    assert_eq!(CommitmentEngine::commit_state(b"abc").0, expected);
    assert_eq!(*CommitmentEngine::commit_state(b"abc").as_bytes(), expected);
}

#[test]
fn transition_commitment_uses_transition_domain() {
    let mut joined = Vec::new();
    joined.extend_from_slice(&TRANSITION_DOMAIN_V1);
    joined.extend_from_slice(b"jump");
    let expected = *blake3::hash(&joined).as_bytes();
    assert_eq!(TransitionCommitment::compute(b"jump").0, expected);
    assert_ne!(
        TransitionCommitment::compute(b"jump").0,
        CommitmentEngine::commit_state(b"jump").0
    );
}

#[test]
fn empty_input_commitment_is_a_hash() {
    let c = CommitmentEngine::commit_state(&[]);
    assert_eq!(c.0, *blake3::hash(&STATE_DOMAIN_V1).as_bytes());
}
