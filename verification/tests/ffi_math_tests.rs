use fixed::types::I48F16;
use laurn::ffi::{version_code, LaurnResult};
use laurn::math::{DeterministicTransform, DeterministicVector3};
use laurn::verification::VerificationResult;
use laurn::version::ProtocolVersion;

#[test]
fn version_code_packs_the_parts() {
    assert_eq!(version_code(ProtocolVersion::current()), 0x0100);
    assert_eq!(version_code(ProtocolVersion::new(1, 2, 3)), 0x01_02_03);
    assert_eq!(ProtocolVersion::current(), ProtocolVersion::new(0, 1, 0));
}

#[test]
fn verification_results_map_to_codes() {
    assert_eq!(LaurnResult::from_verification(&VerificationResult::Valid), LaurnResult::Success);
    assert_eq!(
        LaurnResult::from_verification(&VerificationResult::Duplicate("d")),
        LaurnResult::VerificationDuplicate
    );
    assert_eq!(
        LaurnResult::from_verification(&VerificationResult::StateMismatch("s")),
        LaurnResult::VerificationStateMismatch
    );
    assert_eq!(
        LaurnResult::from_verification(&VerificationResult::Stale("x")),
        LaurnResult::VerificationFailed
    );
}

#[test]
fn fixed_point_vectors_keep_their_coordinates() {
    let v = DeterministicVector3::new(
        I48F16::from_num(1.5),
        I48F16::from_num(-2),
        I48F16::from_bits(3),
    );
    assert_eq!(v.x, I48F16::from_num(1.5));
    assert_eq!(v.y.to_bits(), -2 << 16);
    assert_eq!(v.z.to_bits(), 3);
    let t = DeterministicTransform::new(v, v, v);
    assert_eq!(t.location, v);
    assert_eq!(t.rotation, v);
    assert_eq!(t.scale, v);
}

use laurn::authority::AuthorityEngine;
use laurn::commitment::StateCommitment;
use laurn::epoch::{Epoch, EpochEngine, EpochId, EpochStatus};
use laurn::ffi::{
    diagnostic_authority, diagnostic_sign_transition, encode_transition_message,
    register_diagnostic_authority, verify_and_record, LaurnAuthorityEngineHandle,
    LaurnEpochEngineHandle, LaurnTransitionHandle,
};
use laurn::policy::{Policy, PolicyEngine, TransitionClass};
use laurn::protocol::codec::LaurnCodec;
use laurn::protocol::LaurnMessagePayload;
use laurn::transition::build_transition;
use laurn::verification::replay::ReplayBuffer;
use laurn::verification::VerificationEngine;

fn default_policy() -> Policy {
    Policy {
        protocol_version: 1,
        max_state_freshness_ms: 5000,
        require_evidence: false,
        allowed_transition_classes: TransitionClass::all(),
        minimum_capability: laurn::authority::AuthorityCapability::empty(),
    }
}

#[test]
fn test_ffi_engine_lifecycle() {
    let handle = Box::new(LaurnAuthorityEngineHandle { inner: AuthorityEngine::new() });
    assert!(!handle.inner.is_registered(&diagnostic_authority().id));
    drop(handle);
}

#[test]
fn test_ffi_epoch_lifecycle() {
    let mut handle = LaurnEpochEngineHandle { inner: EpochEngine::new() };
    let epoch_id = [7u8; 32];
    let initial_state = [0u8; 32];
    let epoch = Epoch {
        id: EpochId(epoch_id),
        sequence: 7,
        start_time_ms: 1_000,
        expiration_time_ms: 2_000,
        status: EpochStatus::Pending,
        initial_state: StateCommitment(initial_state),
    };
    assert_eq!(handle.inner.register_epoch(epoch), Ok(()));
    assert_eq!(handle.inner.activate_epoch(EpochId(epoch_id)), Ok(()));
    assert!(handle.inner.validate_transition_binding(&EpochId(epoch_id), 1_500));
    assert_eq!(handle.inner.close_epoch(EpochId(epoch_id)), Ok(()));
    assert!(!handle.inner.validate_transition_binding(&EpochId(epoch_id), 1_500));
    assert!(handle.inner.activate_epoch(EpochId(epoch_id)).is_err());
}

#[test]
fn test_ffi_diagnostic_signature_verifies_and_replay_is_rejected() {
    let raw_payload = [1u8; 32];
    let epoch_id = [1u8; 32];
    let input_state = [0u8; 32];
    let output_state = [0u8; 32];
    let transition_id = 1u64;
    let timestamp_ms = 1_000u64;

    let mut authority_engine = AuthorityEngine::new();
    assert_eq!(register_diagnostic_authority(&mut authority_engine), LaurnResult::Success);
    let mut epoch_engine = EpochEngine::new();
    epoch_engine
        .register_epoch(Epoch {
            id: EpochId(epoch_id),
            sequence: 1,
            start_time_ms: 500,
            expiration_time_ms: 1_500,
            status: EpochStatus::Pending,
            initial_state: StateCommitment(input_state),
        })
        .unwrap();
    epoch_engine.activate_epoch(EpochId(epoch_id)).unwrap();
    let policy_engine = PolicyEngine::new();
    let policy = default_policy();
    let verifier = VerificationEngine::new();
    let mut seen = ReplayBuffer::default();

    let (authority_id, signature) = diagnostic_sign_transition(
        transition_id,
        TransitionClass::INPUT().bits(),
        epoch_id,
        timestamp_ms,
        input_state,
        output_state,
        &raw_payload,
    )
    .unwrap();

    let transition = LaurnTransitionHandle {
        inner: build_transition(
            transition_id,
            authority_id,
            epoch_id,
            timestamp_ms,
            input_state,
            output_state,
            &raw_payload,
        ),
        transition_class: TransitionClass::INPUT().bits(),
    };
    assert_eq!(transition.inner.metadata.timestamp_ms, timestamp_ms);

    let mut verify = |seen: &mut ReplayBuffer| {
        verify_and_record(
            &verifier,
            &transition.inner,
            &raw_payload,
            &signature,
            StateCommitment(input_state),
            StateCommitment(output_state),
            &authority_engine,
            &epoch_engine,
            &policy_engine,
            &policy,
            timestamp_ms,
            false,
            1,
            1,
            seen,
        )
    };
    assert_eq!(verify(&mut seen), LaurnResult::Success);
    assert_eq!(verify(&mut seen), LaurnResult::VerificationDuplicate);
}

#[test]
fn diagnostic_helpers() {
    let mut engine = AuthorityEngine::new();
    assert_eq!(register_diagnostic_authority(&mut engine), LaurnResult::Success);
    assert_eq!(register_diagnostic_authority(&mut engine), LaurnResult::InvalidConfig);
    let expected_key = ed25519_dalek::SigningKey::from_bytes(&[0x42; 32]).verifying_key().to_bytes();
    assert_eq!(diagnostic_authority().id.0, expected_key);
    assert_eq!(
        diagnostic_sign_transition(1, 0x10, [0; 32], 0, [0; 32], [0; 32], b""),
        Err(LaurnResult::InvalidConfig)
    );
    let mut seen = ReplayBuffer::default();
    let t = build_transition(1, expected_key, [0; 32], 0, [0; 32], [0; 32], b"");
    let result = verify_and_record(
        &VerificationEngine::new(),
        &t,
        b"",
        &[0; 64],
        StateCommitment([0; 32]),
        StateCommitment([0; 32]),
        &engine,
        &EpochEngine::new(),
        &PolicyEngine::new(),
        &default_policy(),
        0,
        false,
        1,
        0x10,
        &mut seen,
    );
    assert_eq!(result, LaurnResult::VerificationFailed);
    assert!(!seen.contains(&t.id));
}

#[test]
fn transition_messages_are_framed() {
    let bytes = encode_transition_message(3, 4, 9, [1; 32], [2; 32], 44, [3; 32], [4; 32], b"hi", [5; 64])
        .unwrap();
    let (msg, used) = LaurnCodec::decode(&bytes).unwrap();
    assert_eq!(used, bytes.len());
    assert_eq!(msg.version, ProtocolVersion::new(3, 0, 0));
    match msg.payload {
        LaurnMessagePayload::Transition(t) => {
            assert_eq!(t.transition, build_transition(9, [1; 32], [2; 32], 44, [3; 32], [4; 32], b"hi"));
            assert_eq!(t.transition_class, 4);
            assert_eq!(t.raw_payload, b"hi".to_vec());
            assert_eq!(t.signature, [5; 64]);
        }
        _ => panic!("not a transition message"),
    }
}
