use laurn::authority::{AuthorityCapability, AuthorityId};
use laurn::epoch::EpochId;
use laurn::policy::{
    EvaluationContext, Policy, PolicyDecision, PolicyEngine, PolicyRejectionReason,
    TransitionClass,
};
use laurn::transition::TransitionMetadata;

fn generate_test_metadata(timestamp_ms: u64) -> TransitionMetadata {
    TransitionMetadata {
        authority_id: AuthorityId([0u8; 32]),
        epoch_id: EpochId([1u8; 32]),
        timestamp_ms,
    }
}

fn default_policy() -> Policy {
    Policy {
        protocol_version: 1,
        max_state_freshness_ms: 500, // 500ms max age
        require_evidence: true,
        allowed_transition_classes: TransitionClass::INPUT().union(TransitionClass::SPAWN()),
        minimum_capability: AuthorityCapability::CAN_SUBMIT_TRANSITION(),
    }
}

#[test]
fn test_policy_acceptance() {
    let engine = PolicyEngine::new();
    let policy = default_policy();
    let metadata = generate_test_metadata(1000);
    let ctx = EvaluationContext {
        transition_protocol_version: 1, // matching version
        metadata: &metadata,
        parent_state_timestamp_ms: 900, // Delta is 100ms <= 500ms
        has_evidence: true,             // has evidence
        transition_class: TransitionClass::INPUT(),
        authority_capabilities: AuthorityCapability::CAN_SUBMIT_TRANSITION()
            .union(AuthorityCapability::CAN_SPAWN()),
    };

    let decision = engine.evaluate(&policy, &ctx);

    assert_eq!(decision, PolicyDecision::Accepted);
}

#[test]
fn test_policy_version_mismatch() {
    let engine = PolicyEngine::new();
    let policy = default_policy();
    let metadata = generate_test_metadata(1000);
    let ctx = EvaluationContext {
        transition_protocol_version: 2, // mismatch!
        metadata: &metadata,
        parent_state_timestamp_ms: 900,
        has_evidence: true,
        transition_class: TransitionClass::INPUT(),
        authority_capabilities: AuthorityCapability::CAN_SUBMIT_TRANSITION(),
    };

    let decision = engine.evaluate(&policy, &ctx);

    assert_eq!(
        decision,
        PolicyDecision::Rejected(PolicyRejectionReason::ProtocolVersionMismatch)
    );
}

#[test]
fn test_policy_evidence_missing() {
    let engine = PolicyEngine::new();
    let policy = default_policy();
    let metadata = generate_test_metadata(1000);
    let ctx = EvaluationContext {
        transition_protocol_version: 1,
        metadata: &metadata,
        parent_state_timestamp_ms: 900,
        has_evidence: false, // Missing evidence!
        transition_class: TransitionClass::INPUT(),
        authority_capabilities: AuthorityCapability::CAN_SUBMIT_TRANSITION(),
    };

    let decision = engine.evaluate(&policy, &ctx);

    assert_eq!(decision, PolicyDecision::Rejected(PolicyRejectionReason::EvidenceMissing));
}

#[test]
fn test_policy_state_freshness_violation() {
    let engine = PolicyEngine::new();
    let policy = default_policy();

    // Test transition is too far ahead of parent state
    let metadata = generate_test_metadata(1600);
    let ctx1 = EvaluationContext {
        transition_protocol_version: 1,
        metadata: &metadata,
        parent_state_timestamp_ms: 1000, // Delta 600ms > 500ms
        has_evidence: true,
        transition_class: TransitionClass::INPUT(),
        authority_capabilities: AuthorityCapability::CAN_SUBMIT_TRANSITION(),
    };
    let decision = engine.evaluate(&policy, &ctx1);
    assert_eq!(
        decision,
        PolicyDecision::Rejected(PolicyRejectionReason::StateFreshnessViolation)
    );

    // Test transition predates parent state
    let predates_metadata = generate_test_metadata(900);
    let ctx2 = EvaluationContext {
        transition_protocol_version: 1,
        metadata: &predates_metadata,
        parent_state_timestamp_ms: 1000,
        has_evidence: true,
        transition_class: TransitionClass::INPUT(),
        authority_capabilities: AuthorityCapability::CAN_SUBMIT_TRANSITION(),
    };
    let decision2 = engine.evaluate(&policy, &ctx2);
    assert_eq!(
        decision2,
        PolicyDecision::Rejected(PolicyRejectionReason::StateFreshnessViolation)
    );
}

#[test]
fn test_policy_transition_class_not_allowed() {
    let engine = PolicyEngine::new();
    let policy = default_policy(); // Only INPUT and SPAWN allowed
    let metadata = generate_test_metadata(1000);
    let ctx = EvaluationContext {
        transition_protocol_version: 1,
        metadata: &metadata,
        parent_state_timestamp_ms: 900,
        has_evidence: true,
        transition_class: TransitionClass::TIME_CONTROL(), // Not allowed!
        authority_capabilities: AuthorityCapability::CAN_SUBMIT_TRANSITION()
            .union(AuthorityCapability::CAN_AUTHORIZE_TIME()),
    };

    let decision = engine.evaluate(&policy, &ctx);

    assert_eq!(
        decision,
        PolicyDecision::Rejected(PolicyRejectionReason::TransitionClassNotAllowed)
    );
}

#[test]
fn test_policy_insufficient_authority_capability() {
    let engine = PolicyEngine::new();
    let policy = default_policy(); // Requires CAN_SUBMIT_TRANSITION
    let metadata = generate_test_metadata(1000);

    let ctx = EvaluationContext {
        transition_protocol_version: 1,
        metadata: &metadata,
        parent_state_timestamp_ms: 900,
        has_evidence: true,
        transition_class: TransitionClass::INPUT(),
        authority_capabilities: AuthorityCapability::empty(), // Insufficient!
    };
    let decision = engine.evaluate(&policy, &ctx);

    assert_eq!(
        decision,
        PolicyDecision::Rejected(PolicyRejectionReason::InsufficientAuthorityCapability)
    );
}

#[test]
fn freshness_window_edges() {
    let engine = PolicyEngine::new();
    let policy = default_policy();
    for (ts, parent, accepted) in [(1500u64, 1000u64, true), (1501, 1000, false), (1000, 1000, true)] {
        let metadata = generate_test_metadata(ts);
        let ctx = EvaluationContext {
            transition_protocol_version: 1,
            metadata: &metadata,
            parent_state_timestamp_ms: parent,
            has_evidence: true,
            transition_class: TransitionClass::SPAWN(),
            authority_capabilities: AuthorityCapability::all(),
        };
        assert_eq!(engine.evaluate(&policy, &ctx) == PolicyDecision::Accepted, accepted);
    }
}

#[test]
fn version_is_checked_before_evidence() {
    let engine = PolicyEngine::new();
    let policy = default_policy();
    let metadata = generate_test_metadata(5000);
    let ctx = EvaluationContext {
        transition_protocol_version: 7,
        metadata: &metadata,
        parent_state_timestamp_ms: 0,
        has_evidence: false,
        transition_class: TransitionClass::ADMIN(),
        authority_capabilities: AuthorityCapability::empty(),
    };
    assert_eq!(
        engine.evaluate(&policy, &ctx),
        PolicyDecision::Rejected(PolicyRejectionReason::ProtocolVersionMismatch)
    );
}

#[test]
fn transition_class_bits() {
    assert_eq!(TransitionClass::INPUT().union(TransitionClass::SPAWN()).bits(), 3);
    assert_eq!(TransitionClass::all().bits(), 0x8000_0007);
    assert!(TransitionClass::from_bits(8).is_none());
    assert_eq!(TransitionClass::from_bits(4).unwrap(), TransitionClass::TIME_CONTROL());
    assert_eq!(TransitionClass::from_bits_truncate(0xff).bits(), 7);
    assert!(TransitionClass::all().contains(TransitionClass::ADMIN()));
    assert!(!TransitionClass::empty().contains(TransitionClass::INPUT()));
}
