use ed25519_dalek::{Signer, SigningKey};
use laurn::authority::{Authority, AuthorityCapability, AuthorityEngine, AuthorityId, AuthorityRole};
use laurn::commitment::StateCommitment;
use laurn::epoch::{Epoch, EpochEngine, EpochId, EpochStatus};
use laurn::policy::{Policy, PolicyEngine, TransitionClass};
use laurn::transition::{Transition, TransitionCommitment, TransitionId, TransitionMetadata};
use laurn::verification::replay::ReplayBuffer;
use laurn::verification::{
    transition_signing_bytes, VerificationContext, VerificationEngine, VerificationResult,
};
use rand::rngs::OsRng;

fn generate_keypair() -> (SigningKey, AuthorityId) {
    let mut csprng = OsRng;
    let signing_key = SigningKey::generate(&mut csprng);
    let verifying_key = signing_key.verifying_key();
    (signing_key, AuthorityId(verifying_key.to_bytes()))
}

fn setup_environment() -> (
    AuthorityEngine,
    EpochEngine,
    PolicyEngine,
    Policy,
    SigningKey,
    AuthorityId,
    EpochId,
) {
    let mut auth_engine = AuthorityEngine::new();
    let mut epoch_engine = EpochEngine::new();
    let policy_engine = PolicyEngine::new();

    let (signing_key, auth_id) = generate_keypair();

    let authority = Authority {
        id: auth_id,
        role: AuthorityRole::Client,
        capabilities: AuthorityCapability::CAN_SUBMIT_TRANSITION()
            .union(AuthorityCapability::CAN_SPAWN()),
        session_binding: None,
    };
    auth_engine.register_authority(authority).unwrap();

    let epoch_id = EpochId([1u8; 32]);
    let epoch = Epoch {
        id: epoch_id,
        sequence: 1,
        start_time_ms: 1000,
        expiration_time_ms: 2000,
        status: EpochStatus::Pending,
        initial_state: StateCommitment([0u8; 32]),
    };
    epoch_engine.register_epoch(epoch).unwrap();
    epoch_engine.activate_epoch(epoch_id).unwrap();

    let policy = Policy {
        protocol_version: 1,
        max_state_freshness_ms: 500,
        require_evidence: true,
        allowed_transition_classes: TransitionClass::INPUT().union(TransitionClass::SPAWN()),
        minimum_capability: AuthorityCapability::CAN_SUBMIT_TRANSITION(),
    };

    (auth_engine, epoch_engine, policy_engine, policy, signing_key, auth_id, epoch_id)
}

fn create_valid_transition(
    auth_id: AuthorityId,
    epoch_id: EpochId,
    timestamp_ms: u64,
    raw_payload: &[u8],
) -> Transition {
    Transition {
        id: TransitionId(1),
        metadata: TransitionMetadata { authority_id: auth_id, epoch_id, timestamp_ms },
        input_state: StateCommitment([0u8; 32]),
        output_state: StateCommitment([2u8; 32]),
        payload_commitment: TransitionCommitment::compute(raw_payload),
    }
}

#[test]
fn test_valid_transition() {
    let (auth_engine, epoch_engine, policy_engine, policy, signing_key, auth_id, epoch_id) =
        setup_environment();

    let raw_payload = b"move_forward";
    let transition = create_valid_transition(auth_id, epoch_id, 1500, raw_payload);
    
    let serialized_transition = transition_signing_bytes(&transition, TransitionClass::INPUT().bits());
    let signature = signing_key.sign(&serialized_transition);

    let engine = VerificationEngine::new();
    let sig_bytes = signature.to_bytes();
    let ctx = VerificationContext {
        transition: &transition,
        raw_payload,
        signature: &sig_bytes,
        expected_input_state: StateCommitment([0u8; 32]),
        seen_transitions: &ReplayBuffer::default(),
        generated_output_state: StateCommitment([2u8; 32]), // Matching output state
        authority_engine: &auth_engine,
        epoch_engine: &epoch_engine,
        policy_engine: &policy_engine,
        policy: &policy,
        parent_state_timestamp_ms: 1400, // Parent state timestamp (within 500ms freshness)
        has_evidence: true,              // Has evidence
        transition_protocol_version: 1,  // Protocol version matches
        transition_class: TransitionClass::INPUT(),
    };

    let result = engine.verify(&ctx);

    assert_eq!(result, VerificationResult::Valid);
}

#[test]
fn test_invalid_signature() {
    let (auth_engine, epoch_engine, policy_engine, policy, signing_key, auth_id, epoch_id) =
        setup_environment();

    let raw_payload = b"move_forward";
    let transition = create_valid_transition(auth_id, epoch_id, 1500, raw_payload);
    
    // We sign a DIFFERENT transition payload
    let mut tampered_transition = transition.clone();
    tampered_transition.id = TransitionId(999); // Tampered!
    let serialized_tampered = transition_signing_bytes(&tampered_transition, TransitionClass::INPUT().bits());
    
    // Sign the tampered data, but submit the untampered transition. Signature will fail.
    let signature = signing_key.sign(&serialized_tampered);

    let engine = VerificationEngine::new();
    let sig_bytes = signature.to_bytes();
    let ctx = VerificationContext {
        transition: &transition,
        raw_payload,
        signature: &sig_bytes,
        expected_input_state: StateCommitment([0u8; 32]),
        seen_transitions: &ReplayBuffer::default(),
        generated_output_state: StateCommitment([2u8; 32]),
        authority_engine: &auth_engine,
        epoch_engine: &epoch_engine,
        policy_engine: &policy_engine,
        policy: &policy,
        parent_state_timestamp_ms: 1400,
        has_evidence: true,
        transition_protocol_version: 1,
        transition_class: TransitionClass::INPUT(),
    };

    let result = engine.verify(&ctx);

    assert_eq!(result, VerificationResult::Invalid("Cryptographic signature verification failed"));
}

#[test]
fn test_stale_epoch() {
    let (auth_engine, epoch_engine, policy_engine, policy, signing_key, auth_id, epoch_id) =
        setup_environment();

    let raw_payload = b"move_forward";
    // Epoch expires at 2000. 2500 is out of bounds.
    let transition = create_valid_transition(auth_id, epoch_id, 2500, raw_payload);
    let serialized_transition = transition_signing_bytes(&transition, TransitionClass::INPUT().bits());
    let signature = signing_key.sign(&serialized_transition);

    let engine = VerificationEngine::new();
    let sig_bytes = signature.to_bytes();
    let ctx = VerificationContext {
        transition: &transition,
        raw_payload,
        signature: &sig_bytes,
        expected_input_state: StateCommitment([0u8; 32]),
        seen_transitions: &ReplayBuffer::default(),
        generated_output_state: StateCommitment([2u8; 32]),
        authority_engine: &auth_engine,
        epoch_engine: &epoch_engine,
        policy_engine: &policy_engine,
        policy: &policy,
        parent_state_timestamp_ms: 2400,
        has_evidence: true,
        transition_protocol_version: 1,
        transition_class: TransitionClass::INPUT(),
    };

    let result = engine.verify(&ctx);

    assert_eq!(result, VerificationResult::Stale("Epoch is inactive, expired, or transition timestamp is out of bounds"));
}

#[test]
fn test_unknown_authority() {
    let (auth_engine, epoch_engine, policy_engine, policy, _, _, epoch_id) =
        setup_environment();

    let (unregistered_key, unregistered_id) = generate_keypair();

    let raw_payload = b"move_forward";
    let transition = create_valid_transition(unregistered_id, epoch_id, 1500, raw_payload);
    let serialized_transition = transition_signing_bytes(&transition, TransitionClass::INPUT().bits());
    let signature = unregistered_key.sign(&serialized_transition);

    let engine = VerificationEngine::new();
    let sig_bytes = signature.to_bytes();
    let ctx = VerificationContext {
        transition: &transition,
        raw_payload,
        signature: &sig_bytes,
        expected_input_state: StateCommitment([0u8; 32]),
        seen_transitions: &ReplayBuffer::default(),
        generated_output_state: StateCommitment([2u8; 32]),
        authority_engine: &auth_engine, // Engine doesn't know about this authority
        epoch_engine: &epoch_engine,
        policy_engine: &policy_engine,
        policy: &policy,
        parent_state_timestamp_ms: 1400,
        has_evidence: true,
        transition_protocol_version: 1,
        transition_class: TransitionClass::INPUT(),
    };

    let result = engine.verify(&ctx);

    assert_eq!(result, VerificationResult::Unknown("Authority not registered"));
}

#[test]
fn test_incompatible_policy() {
    let (auth_engine, epoch_engine, policy_engine, policy, signing_key, auth_id, epoch_id) =
        setup_environment();

    let raw_payload = b"move_forward";
    let transition = create_valid_transition(auth_id, epoch_id, 1500, raw_payload);
    let serialized_transition = transition_signing_bytes(&transition, TransitionClass::INPUT().bits());
    let signature = signing_key.sign(&serialized_transition);

    let engine = VerificationEngine::new();
    let sig_bytes = signature.to_bytes();
    let ctx = VerificationContext {
        transition: &transition,
        raw_payload,
        signature: &sig_bytes,
        expected_input_state: StateCommitment([0u8; 32]),
        seen_transitions: &ReplayBuffer::default(),
        generated_output_state: StateCommitment([2u8; 32]),
        authority_engine: &auth_engine,
        epoch_engine: &epoch_engine,
        policy_engine: &policy_engine,
        policy: &policy,
        parent_state_timestamp_ms: 1400,
        has_evidence: false, // MISSING EVIDENCE! Policy requires evidence.
        transition_protocol_version: 1,
        transition_class: TransitionClass::INPUT(),
    };

    let result = engine.verify(&ctx);

    assert_eq!(result, VerificationResult::Incompatible("Required evidence missing"));
}

#[test]
fn test_attack_modified_state() {
    let (auth_engine, epoch_engine, policy_engine, policy, signing_key, auth_id, epoch_id) =
        setup_environment();

    let raw_payload = b"move_forward";
    let transition = create_valid_transition(auth_id, epoch_id, 1500, raw_payload);
    let serialized_transition = transition_signing_bytes(&transition, TransitionClass::INPUT().bits());
    let signature = signing_key.sign(&serialized_transition);

    let engine = VerificationEngine::new();
    let sig_bytes = signature.to_bytes();
    
    let ctx = VerificationContext {
        transition: &transition,
        raw_payload,
        signature: &sig_bytes,
        expected_input_state: StateCommitment([0u8; 32]),
        seen_transitions: &ReplayBuffer::default(),
        generated_output_state: StateCommitment([99u8; 32]), // TAMPERED OUTPUT STATE
        authority_engine: &auth_engine,
        epoch_engine: &epoch_engine,
        policy_engine: &policy_engine,
        policy: &policy,
        parent_state_timestamp_ms: 1400,
        has_evidence: true,
        transition_protocol_version: 1,
        transition_class: TransitionClass::INPUT(),
    };

    let result = engine.verify(&ctx);
    assert_eq!(result, VerificationResult::Invalid("Transition integrity check failed (payload mismatch or output state mismatch)"));
}

#[test]
fn test_attack_reordered_transition() {
    let (auth_engine, epoch_engine, policy_engine, policy, signing_key, auth_id, epoch_id) =
        setup_environment();

    let raw_payload = b"move_forward";
    let transition = create_valid_transition(auth_id, epoch_id, 1500, raw_payload);
    let serialized_transition = transition_signing_bytes(&transition, TransitionClass::INPUT().bits());
    let signature = signing_key.sign(&serialized_transition);

    let engine = VerificationEngine::new();
    let sig_bytes = signature.to_bytes();
    
    let ctx = VerificationContext {
        transition: &transition,
        raw_payload,
        signature: &sig_bytes,
        expected_input_state: StateCommitment([1u8; 32]), // EXPECTED INPUT IS DIFFERENT FROM TRANSITION INPUT!
        seen_transitions: &ReplayBuffer::default(),
        generated_output_state: StateCommitment([2u8; 32]),
        authority_engine: &auth_engine,
        epoch_engine: &epoch_engine,
        policy_engine: &policy_engine,
        policy: &policy,
        parent_state_timestamp_ms: 1400,
        has_evidence: true,
        transition_protocol_version: 1,
        transition_class: TransitionClass::INPUT(),
    };

    let result = engine.verify(&ctx);
    assert_eq!(result, VerificationResult::StateMismatch("Transition input state does not match expected active state"));
}

#[test]
fn test_attack_duplicated_transition() {
    let (auth_engine, epoch_engine, policy_engine, policy, signing_key, auth_id, epoch_id) =
        setup_environment();

    let raw_payload = b"move_forward";
    let transition = create_valid_transition(auth_id, epoch_id, 1500, raw_payload);
    let serialized_transition = transition_signing_bytes(&transition, TransitionClass::INPUT().bits());
    let signature = signing_key.sign(&serialized_transition);

    let engine = VerificationEngine::new();
    let sig_bytes = signature.to_bytes();
    
    let mut seen = ReplayBuffer::default();
    seen.insert(transition.id); // TRANSITION WAS ALREADY SEEN!

    let ctx = VerificationContext {
        transition: &transition,
        raw_payload,
        signature: &sig_bytes,
        expected_input_state: StateCommitment([0u8; 32]),
        seen_transitions: &seen,
        generated_output_state: StateCommitment([2u8; 32]),
        authority_engine: &auth_engine,
        epoch_engine: &epoch_engine,
        policy_engine: &policy_engine,
        policy: &policy,
        parent_state_timestamp_ms: 1400,
        has_evidence: true,
        transition_protocol_version: 1,
        transition_class: TransitionClass::INPUT(),
    };

    let result = engine.verify(&ctx);
    assert_eq!(result, VerificationResult::Duplicate("Transition has already been applied"));
}

#[test]
fn test_attack_epoch_substitution() {
    let (auth_engine, epoch_engine, policy_engine, policy, signing_key, auth_id, _) =
        setup_environment();

    let raw_payload = b"move_forward";
    // USE AN INVALID EPOCH
    let invalid_epoch_id = EpochId([99u8; 32]);
    let transition = create_valid_transition(auth_id, invalid_epoch_id, 1500, raw_payload);
    let serialized_transition = transition_signing_bytes(&transition, TransitionClass::INPUT().bits());
    let signature = signing_key.sign(&serialized_transition);

    let engine = VerificationEngine::new();
    let sig_bytes = signature.to_bytes();
    
    let ctx = VerificationContext {
        transition: &transition,
        raw_payload,
        signature: &sig_bytes,
        expected_input_state: StateCommitment([0u8; 32]),
        seen_transitions: &ReplayBuffer::default(),
        generated_output_state: StateCommitment([2u8; 32]),
        authority_engine: &auth_engine,
        epoch_engine: &epoch_engine,
        policy_engine: &policy_engine,
        policy: &policy,
        parent_state_timestamp_ms: 1400,
        has_evidence: true,
        transition_protocol_version: 1,
        transition_class: TransitionClass::INPUT(),
    };

    let result = engine.verify(&ctx);
    assert_eq!(result, VerificationResult::Stale("Epoch is inactive, expired, or transition timestamp is out of bounds"));
}

#[test]
fn test_attack_malformed_payload() {
    let (auth_engine, epoch_engine, policy_engine, policy, signing_key, auth_id, epoch_id) =
        setup_environment();

    let raw_payload = b"move_forward";
    let transition = create_valid_transition(auth_id, epoch_id, 1500, raw_payload);
    let serialized_transition = transition_signing_bytes(&transition, TransitionClass::INPUT().bits());
    let signature = signing_key.sign(&serialized_transition);

    let engine = VerificationEngine::new();
    let sig_bytes = signature.to_bytes();
    
    let malformed_payload = b"move_backward"; // MALFORMED PAYLOAD SUPPLIED!

    let ctx = VerificationContext {
        transition: &transition,
        raw_payload: malformed_payload,
        signature: &sig_bytes,
        expected_input_state: StateCommitment([0u8; 32]),
        seen_transitions: &ReplayBuffer::default(),
        generated_output_state: StateCommitment([2u8; 32]),
        authority_engine: &auth_engine,
        epoch_engine: &epoch_engine,
        policy_engine: &policy_engine,
        policy: &policy,
        parent_state_timestamp_ms: 1400,
        has_evidence: true,
        transition_protocol_version: 1,
        transition_class: TransitionClass::INPUT(),
    };

    let result = engine.verify(&ctx);
    assert_eq!(result, VerificationResult::Invalid("Transition integrity check failed (payload mismatch or output state mismatch)"));
}

#[test]
fn oversized_payload_is_invalid_before_anything_else() {
    let (auth_engine, epoch_engine, policy_engine, policy, _, auth_id, epoch_id) =
        setup_environment();
    let raw_payload = vec![0u8; laurn::verification::MAX_TRANSITION_PAYLOAD_SIZE + 1];
    let transition = create_valid_transition(auth_id, epoch_id, 1500, &raw_payload);
    let mut seen = ReplayBuffer::default();
    seen.insert(transition.id);
    let sig_bytes = [0u8; 64];
    let ctx = VerificationContext {
        transition: &transition,
        raw_payload: &raw_payload,
        signature: &sig_bytes,
        expected_input_state: StateCommitment([0u8; 32]),
        seen_transitions: &seen,
        generated_output_state: StateCommitment([2u8; 32]),
        authority_engine: &auth_engine,
        epoch_engine: &epoch_engine,
        policy_engine: &policy_engine,
        policy: &policy,
        parent_state_timestamp_ms: 1400,
        has_evidence: true,
        transition_protocol_version: 1,
        transition_class: TransitionClass::INPUT(),
    };
    assert_eq!(
        VerificationEngine::new().verify(&ctx),
        VerificationResult::Invalid("Transition payload exceeds maximum allowed size")
    );
}

#[test]
fn class_and_freshness_rejections_are_reported() {
    let (auth_engine, epoch_engine, policy_engine, policy, signing_key, auth_id, epoch_id) =
        setup_environment();
    let raw_payload = b"move_forward";
    let transition = create_valid_transition(auth_id, epoch_id, 1500, raw_payload);
    let sign = |class: TransitionClass| {
        signing_key.sign(&transition_signing_bytes(&transition, class.bits())).to_bytes()
    };
    let time_sig = sign(TransitionClass::TIME_CONTROL());
    let input_sig = sign(TransitionClass::INPUT());
    let seen = ReplayBuffer::default();
    let mut ctx = VerificationContext {
        transition: &transition,
        raw_payload,
        signature: &time_sig,
        expected_input_state: StateCommitment([0u8; 32]),
        seen_transitions: &seen,
        generated_output_state: StateCommitment([2u8; 32]),
        authority_engine: &auth_engine,
        epoch_engine: &epoch_engine,
        policy_engine: &policy_engine,
        policy: &policy,
        parent_state_timestamp_ms: 1400,
        has_evidence: true,
        transition_protocol_version: 1,
        transition_class: TransitionClass::TIME_CONTROL(),
    };
    let engine = VerificationEngine::new();
    assert_eq!(
        engine.verify(&ctx),
        VerificationResult::Incompatible("Transition class not permitted by policy")
    );
    ctx.transition_class = TransitionClass::INPUT();
    ctx.signature = &input_sig;
    ctx.parent_state_timestamp_ms = 900;
    assert_eq!(engine.verify(&ctx), VerificationResult::Stale("State freshness threshold exceeded"));
    ctx.parent_state_timestamp_ms = 1400;
    ctx.transition_protocol_version = 2;
    assert_eq!(engine.verify(&ctx), VerificationResult::Incompatible("Protocol version mismatch"));
}

#[test]
fn class_is_part_of_the_signed_representation() {
    let (auth_engine, epoch_engine, policy_engine, policy, signing_key, auth_id, epoch_id) =
        setup_environment();
    let raw_payload = b"move_forward";
    let transition = create_valid_transition(auth_id, epoch_id, 1500, raw_payload);
    let signed = transition_signing_bytes(&transition, TransitionClass::INPUT().bits());
    assert_eq!(signed.len(), transition.to_bytes().len() + 4);
    assert_eq!(signed[signed.len() - 4..], [1, 0, 0, 0]);
    let sig_bytes = signing_key.sign(&signed).to_bytes();
    let seen = ReplayBuffer::default();
    let engine = VerificationEngine::new();
    let verdict = |class: TransitionClass| {
        engine.verify(&VerificationContext {
            transition: &transition,
            raw_payload,
            signature: &sig_bytes,
            expected_input_state: StateCommitment([0u8; 32]),
            seen_transitions: &seen,
            generated_output_state: StateCommitment([2u8; 32]),
            authority_engine: &auth_engine,
            epoch_engine: &epoch_engine,
            policy_engine: &policy_engine,
            policy: &policy,
            parent_state_timestamp_ms: 1400,
            has_evidence: true,
            transition_protocol_version: 1,
            transition_class: class,
        })
    };
    assert_eq!(verdict(TransitionClass::INPUT()), VerificationResult::Valid);
    assert_eq!(
        verdict(TransitionClass::SPAWN()),
        VerificationResult::Invalid("Cryptographic signature verification failed")
    );
}
