use laurn::authority::AuthorityEngine;
use laurn::commitment::StateCommitment;
use laurn::epoch::EpochEngine;
use laurn::inspection::{inspect_frame, inspection_policy, FrameVerdict};
use laurn::policy::PolicyEngine;
use laurn::protocol::{ErrorCode, ErrorMessage, LaurnMessage, LaurnMessagePayload, TransitionMessage};
use laurn::transition::build_transition;
use laurn::verification::replay::ReplayBuffer;
use laurn::verification::{VerificationEngine, VerificationResult};
use laurn::version::ProtocolVersion;

#[test]
fn frames_are_classified_and_transitions_recorded() {
    let authority_engine = AuthorityEngine::new();
    let epoch_engine = EpochEngine::new();
    let policy_engine = PolicyEngine::new();
    let policy = inspection_policy();
    assert_eq!(policy.protocol_version, 1);
    let verifier = VerificationEngine::new();
    let mut seen = ReplayBuffer::default();

    let inspect = |payload: &[u8], seen: &mut ReplayBuffer| {
        inspect_frame(
            payload,
            StateCommitment([0; 32]),
            &verifier,
            &authority_engine,
            &epoch_engine,
            &policy_engine,
            &policy,
            seen,
        )
    };

    assert_eq!(inspect(&[1, 2, 3], &mut seen), FrameVerdict::Undecodable);
    let error = LaurnMessage {
        version: ProtocolVersion::current(),
        payload: LaurnMessagePayload::Error(ErrorMessage { code: ErrorCode::Unknown }),
    }
    .try_to_vec()
    .unwrap();
    assert_eq!(inspect(&error, &mut seen), FrameVerdict::NotATransition);

    let t = build_transition(5, [1; 32], [2; 32], 0, [3; 32], [0; 32], b"x");
    let transition = LaurnMessage {
        version: ProtocolVersion::current(),
        payload: LaurnMessagePayload::Transition(TransitionMessage {
            transition: t,
            transition_class: 1,
            raw_payload: b"x".to_vec(),
            signature: [0; 64],
        }),
    }
    .try_to_vec()
    .unwrap();
    // No epoch is active, so the transition is stale; it is recorded anyway.
    assert_eq!(
        inspect(&transition, &mut seen),
        FrameVerdict::Checked(VerificationResult::Stale(
            "Epoch is inactive, expired, or transition timestamp is out of bounds"
        ))
    );
    assert!(seen.contains(&t.id));
    assert_eq!(
        inspect(&transition, &mut seen),
        FrameVerdict::Checked(VerificationResult::Duplicate("Transition has already been applied"))
    );
}
