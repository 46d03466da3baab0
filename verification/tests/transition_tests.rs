use laurn::authority::AuthorityId;
use laurn::commitment::StateCommitment;
use laurn::epoch::EpochId;
use laurn::transition::{
    build_transition, Transition, TransitionCommitment, TransitionId, TransitionMetadata,
    TRANSITION_ENCODED_LEN,
};

#[test]
fn test_transition_commitment_constant_time_eq() {
    let a = TransitionCommitment([0u8; 32]);
    let mut b_bytes = [0u8; 32];
    b_bytes[0] = 1;
    let b = TransitionCommitment(b_bytes);

    assert_eq!(a, a);
    assert_ne!(a, b);

    let choice: bool = a.ct_eq(&a);
    assert!(choice);
}

#[test]
fn test_transition_validation() {
    let raw_payload = b"jump action";
    let valid_payload_commitment = TransitionCommitment::compute(raw_payload);

    let input_state = StateCommitment([1u8; 32]);
    let output_state = StateCommitment([2u8; 32]);

    let metadata = TransitionMetadata {
        authority_id: AuthorityId([0u8; 32]),
        epoch_id: EpochId([1u8; 32]),
        timestamp_ms: 1622548800000,
    };

    let transition = Transition {
        id: TransitionId(42),
        metadata,
        input_state,
        output_state,
        payload_commitment: valid_payload_commitment,
    };

    // Pass validation with correct payload and expected output
    assert!(transition.validate(raw_payload, output_state));

    // Fail validation with tampered payload
    let tampered_payload = b"shoot action";
    assert!(!transition.validate(tampered_payload, output_state));

    // Fail validation with tampered output state
    let tampered_output_state = StateCommitment([3u8; 32]);
    assert!(!transition.validate(raw_payload, tampered_output_state));
}

fn sample() -> Transition {
    build_transition(7, [1; 32], [2; 32], 0x0102030405060708, [3; 32], [4; 32], b"payload")
}

#[test]
fn canonical_bytes_layout() {
    let t = sample();
    let bytes = t.to_bytes();
    assert_eq!(bytes.len(), TRANSITION_ENCODED_LEN);
    assert_eq!(&bytes[0..8], &7u64.to_le_bytes());
    assert_eq!(&bytes[8..40], &[1u8; 32]);
    assert_eq!(&bytes[40..72], &[2u8; 32]);
    assert_eq!(&bytes[72..80], &0x0102030405060708u64.to_le_bytes());
    assert_eq!(&bytes[80..112], &[3u8; 32]);
    assert_eq!(&bytes[112..144], &[4u8; 32]);
    assert_eq!(&bytes[144..176], &TransitionCommitment::compute(b"payload").0);
}

#[test]
fn read_back_what_was_written() {
    let t = sample();
    let mut buf = vec![9u8, 9];
    t.write_to(&mut buf);
    let (back, end) = Transition::read_from(&buf, 2).unwrap();
    assert_eq!(back, t);
    assert_eq!(end, buf.len());
    assert!(Transition::read_from(&buf, 3).is_none());
}

#[test]
fn build_transition_fills_every_field() {
    let t = sample();
    assert_eq!(t.id, TransitionId(7));
    assert_eq!(t.metadata.authority_id, AuthorityId([1; 32]));
    assert_eq!(t.metadata.epoch_id, EpochId([2; 32]));
    assert_eq!(t.input_state, StateCommitment([3; 32]));
    assert_eq!(t.output_state, StateCommitment([4; 32]));
    assert_eq!(*t.payload_commitment.as_bytes(), TransitionCommitment::compute(b"payload").0);
}
