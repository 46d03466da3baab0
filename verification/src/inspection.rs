//! Checking a recorded session frame by frame, as the replay inspector
//! does: each frame's message is decoded and, when it is a transition,
//! verified against the inspector's engines and policy.
use crate::authority::{AuthorityCapability, AuthorityEngine};
use crate::epoch::EpochEngine;
use crate::policy::{Policy, PolicyEngine, TransitionClass, ALL_TRANSITION_CLASS_BITS};
use crate::protocol::format::decode_message;
use crate::protocol::{LaurnMessage, LaurnMessagePayload, PayloadV, TransitionMessage};
use crate::commitment::StateCommitment;
use crate::verification::replay::{history_after_insert, ReplayBuffer};
use crate::verification::{
    verification_outcome, VerificationContext, VerificationEngine, VerificationResult,
};
use vstd::prelude::*;

verus! {

/// What the inspector concludes of one recorded frame.
#[derive(Debug, Clone, Copy, PartialEq, Eq)]
pub enum FrameVerdict {
    /// The frame's payload is not a message.
    Undecodable,
    /// The frame's message is not a transition.
    NotATransition,
    /// The frame's transition was verified with this result.
    Checked(VerificationResult),
}

/// The inspector's policy: protocol version 1, no freshness slack, no
/// evidence required, every transition class allowed, no capability
/// required.
pub fn inspection_policy() -> (r: Policy)
    ensures
        r.protocol_version == 1,
        r.max_state_freshness_ms == 0,
        !r.require_evidence,
        r.allowed_transition_classes.spec_bits() == ALL_TRANSITION_CLASS_BITS,
        r.minimum_capability.spec_bits() == 0,
{
    Policy {
        protocol_version: 1,
        max_state_freshness_ms: 0,
        require_evidence: false,
        allowed_transition_classes: TransitionClass::all(),
        minimum_capability: AuthorityCapability::empty(),
    }
}

/// The context in which the inspector verifies a recorded transition: the
/// frame's payload and expected state, the transition's own input state and
/// signature, and a parent state at time 0, version 1, the input class, and
/// no evidence.
pub open spec fn inspection_context<'a>(
    tm: &'a TransitionMessage,
    raw_payload: &'a [u8],
    expected_output_state: StateCommitment,
    authority_engine: &'a AuthorityEngine,
    epoch_engine: &'a EpochEngine,
    policy_engine: &'a PolicyEngine,
    policy: &'a Policy,
    seen: &'a ReplayBuffer,
) -> VerificationContext<'a> {
    VerificationContext {
        transition: &tm.transition,
        raw_payload,
        signature: &tm.signature,
        expected_input_state: tm.transition.input_state,
        generated_output_state: expected_output_state,
        authority_engine,
        epoch_engine,
        policy_engine,
        policy,
        seen_transitions: seen,
        parent_state_timestamp_ms: 0,
        has_evidence: false,
        transition_protocol_version: 1,
        transition_class: TransitionClass::with_bits(1),
    }
}

/// Inspects one recorded frame, given by its payload and expected output
/// state: decodes its message and, when it is a transition, verifies it and
/// records its identifier among the seen transitions, whatever the verdict.
pub fn inspect_frame(
    raw_payload: &[u8],
    expected_output_state: StateCommitment,
    verifier: &VerificationEngine,
    authority_engine: &AuthorityEngine,
    epoch_engine: &EpochEngine,
    policy_engine: &PolicyEngine,
    policy: &Policy,
    seen: &mut ReplayBuffer,
) -> (r: FrameVerdict)
    requires
        authority_engine.wf(),
        epoch_engine.wf(),
        old(seen).wf(),
    ensures
        final(seen).wf(),
        final(seen).capacity_view() == old(seen).capacity_view(),
        match decode_message(raw_payload@) {
            None => r == FrameVerdict::Undecodable && final(seen).history_view() == old(
                seen,
            ).history_view(),
            Some(m) => match m.payload {
                PayloadV::Transition(tv) => exists|tm: TransitionMessage|
                    #![trigger tm@]
                    tm@ == tv && r == FrameVerdict::Checked(
                        verification_outcome(
                            inspection_context(
                                &tm,
                                raw_payload,
                                expected_output_state,
                                authority_engine,
                                epoch_engine,
                                policy_engine,
                                policy,
                                &*old(seen),
                            ),
                        ),
                    ) && final(seen).history_view() == history_after_insert(
                        old(seen).history_view(),
                        old(seen).capacity_view(),
                        tv.transition.id,
                    ),
                _ => r == FrameVerdict::NotATransition && final(seen).history_view() == old(
                    seen,
                ).history_view(),
            },
        },
{
    let msg = match LaurnMessage::try_from_slice(raw_payload) {
        Some(m) => m,
        None => return FrameVerdict::Undecodable,
    };
    let tm = match msg.payload {
        LaurnMessagePayload::Transition(t) => t,
        _ => return FrameVerdict::NotATransition,
    };
    let class = TransitionClass::from_bits_truncate(1);
    assert(1u32 & 0x8000_0007u32 == 1u32) by (bit_vector);
    assert(class == TransitionClass::with_bits(1));
    let result = {
        let ctx = VerificationContext {
            transition: &tm.transition,
            raw_payload,
            signature: &tm.signature,
            expected_input_state: tm.transition.input_state,
            generated_output_state: expected_output_state,
            authority_engine,
            epoch_engine,
            policy_engine,
            policy,
            seen_transitions: &*seen,
            parent_state_timestamp_ms: 0,
            has_evidence: false,
            transition_protocol_version: 1,
            transition_class: class,
        };
        verifier.verify(&ctx)
    };
    seen.insert(tm.transition.id);
    FrameVerdict::Checked(result)
}

} // verus!
