//! Transition verification across the authority, epoch and policy engines.
use crate::authority::{
    ed25519_key_decodes, lemma_empty_contains_only_nothing, ed25519_strict_accepts, signature_outcome, AuthorityCapability,
    AuthorityEngine,
};
use crate::commitment::{blake3_digest, StateCommitment, TRANSITION_DOMAIN_V1};
use crate::epoch::{binding_valid, EpochEngine};
use crate::policy::{
    policy_decision, EvaluationContext, Policy, PolicyDecision, PolicyEngine,
    PolicyRejectionReason, TransitionClass,
};
use crate::transition::{enc_transition, Transition, TransitionV};
use crate::wire::{enc_u32, lemma_enc_u32_len, lemma_holds_at_split, lemma_p_u32, write_u32};
use vstd::prelude::*;

pub mod replay;

verus! {

/// Maximum allowed size for a transition payload (4MB).
pub const MAX_TRANSITION_PAYLOAD_SIZE: usize = 4 * 1024 * 1024;

/// The definitive result of evaluating a state transition.
#[derive(Debug, Clone, Copy, PartialEq, Eq)]
pub enum VerificationResult {
    /// The transition is valid and can be applied.
    Valid,
    /// The transition is invalid (tampered, bad signature, wrong output state).
    Invalid(&'static str),
    /// The transition violates timing or epoch boundaries.
    Stale(&'static str),
    /// The transition references an unknown authority or epoch.
    Unknown(&'static str),
    /// The transition is incompatible with the policy or authority capabilities.
    Incompatible(&'static str),
    /// The transition was already verified and applied (duplicate/replay).
    Duplicate(&'static str),
    /// The transition was applied against a different state.
    StateMismatch(&'static str),
}

/// The verification engine that runs a transition through the authority,
/// epoch, policy, transition and state checks.
#[derive(Debug, Default)]
pub struct VerificationEngine;

/// All the inputs required to verify a transition.
#[derive(Debug)]
pub struct VerificationContext<'a> {
    pub transition: &'a Transition,
    pub raw_payload: &'a [u8],
    pub signature: &'a [u8; 64],
    pub expected_input_state: StateCommitment,
    pub generated_output_state: StateCommitment,
    pub authority_engine: &'a AuthorityEngine,
    pub epoch_engine: &'a EpochEngine,
    pub policy_engine: &'a PolicyEngine,
    pub policy: &'a Policy,
    pub seen_transitions: &'a replay::ReplayBuffer,
    pub parent_state_timestamp_ms: u64,
    pub has_evidence: bool,
    pub transition_protocol_version: u32,
    pub transition_class: TransitionClass,
}

/// The verification result for a policy rejection.
pub open spec fn rejection_result(reason: PolicyRejectionReason) -> VerificationResult {
    match reason {
        PolicyRejectionReason::ProtocolVersionMismatch => VerificationResult::Incompatible(
            "Protocol version mismatch",
        ),
        PolicyRejectionReason::StateFreshnessViolation => VerificationResult::Stale(
            "State freshness threshold exceeded",
        ),
        PolicyRejectionReason::EvidenceMissing => VerificationResult::Incompatible(
            "Required evidence missing",
        ),
        PolicyRejectionReason::TransitionClassNotAllowed => VerificationResult::Incompatible(
            "Transition class not permitted by policy",
        ),
        PolicyRejectionReason::InsufficientAuthorityCapability => VerificationResult::Incompatible(
            "Authority lacks required capability",
        ),
    }
}

/// The capabilities handed to the policy: the policy minimum when the
/// authority holds it, none otherwise.
pub open spec fn effective_capabilities(ctx: VerificationContext) -> AuthorityCapability {
    let a = ctx.authority_engine.authorities_view();
    let id = ctx.transition.metadata.authority_id@;
    if a.dom().contains(id) && a[id].capabilities.spec_contains(ctx.policy.minimum_capability) {
        ctx.policy.minimum_capability
    } else {
        AuthorityCapability::empty_spec()
    }
}

/// The bytes an authority signs for a transition submitted under a class:
/// the transition's canonical encoding, then the class bits as a
/// little-endian `u32`.
pub open spec fn signing_bytes(t: TransitionV, class_bits: u32) -> Seq<u8> {
    enc_transition(t) + enc_u32(class_bits)
}

/// The signed representation of a transition submitted under the class
/// with bits `transition_class`.
pub fn transition_signing_bytes(transition: &Transition, transition_class: u32) -> (r: Vec<u8>)
    ensures
        r@ == signing_bytes(transition@, transition_class),
{
    let mut out = transition.to_bytes();
    write_u32(&mut out, transition_class);
    out
}

/// The verdict on a transition. The checks run in order and the first
/// failing one decides: payload size, replay, input state, epoch binding,
/// authority signature over the transition's signed representation (its
/// canonical bytes and its class, see `signing_bytes`), policy, and
/// finally payload commitment and output state.
pub open spec fn verification_outcome(ctx: VerificationContext) -> VerificationResult {
    let t = *ctx.transition;
    let registered = ctx.authority_engine.authorities_view().dom().contains(
        t.metadata.authority_id@,
    );
    if ctx.raw_payload@.len() > MAX_TRANSITION_PAYLOAD_SIZE {
        VerificationResult::Invalid("Transition payload exceeds maximum allowed size")
    } else if ctx.seen_transitions.history_view().contains(t.id.0) {
        VerificationResult::Duplicate("Transition has already been applied")
    } else if t.input_state@ != ctx.expected_input_state@ {
        VerificationResult::StateMismatch(
            "Transition input state does not match expected active state",
        )
    } else if !binding_valid(
        ctx.epoch_engine.epochs_view(),
        ctx.epoch_engine.active_view(),
        t.metadata.epoch_id,
        t.metadata.timestamp_ms,
    ) {
        VerificationResult::Stale(
            "Epoch is inactive, expired, or transition timestamp is out of bounds",
        )
    } else if signature_outcome(
        registered,
        t.metadata.authority_id@,
        signing_bytes(t@, ctx.transition_class.spec_bits()),
        ctx.signature@,
    ) is Err {
        if !registered {
            VerificationResult::Unknown("Authority not registered")
        } else {
            VerificationResult::Invalid("Cryptographic signature verification failed")
        }
    } else {
        match policy_decision(
            *ctx.policy,
            ctx.transition_protocol_version,
            t.metadata.timestamp_ms,
            ctx.parent_state_timestamp_ms,
            ctx.has_evidence,
            ctx.transition_class,
            effective_capabilities(ctx),
        ) {
            PolicyDecision::Rejected(reason) => rejection_result(reason),
            PolicyDecision::Accepted => if !(t.payload_commitment@ == blake3_digest(
                TRANSITION_DOMAIN_V1@ + ctx.raw_payload@,
            ) && t.output_state@ == ctx.generated_output_state@) {
                VerificationResult::Invalid(
                    "Transition integrity check failed (payload mismatch or output state mismatch)",
                )
            } else {
                VerificationResult::Valid
            },
        }
    }
}

impl VerificationEngine {
    pub fn new() -> (r: Self) {
        VerificationEngine
    }

    /// Verifies a transition by running it through all LAURN engines in
    /// order; see `verification_outcome`.
    pub fn verify(&self, ctx: &VerificationContext) -> (r: VerificationResult)
        requires
            ctx.authority_engine.wf(),
            ctx.epoch_engine.wf(),
            ctx.seen_transitions.wf(),
        ensures
            r == verification_outcome(*ctx),
    {
        // 0. Size, replay and ordering checks
        if ctx.raw_payload.len() > MAX_TRANSITION_PAYLOAD_SIZE {
            return VerificationResult::Invalid("Transition payload exceeds maximum allowed size");
        }
        if ctx.seen_transitions.contains(&ctx.transition.id) {
            return VerificationResult::Duplicate("Transition has already been applied");
        }
        if !ctx.transition.input_state.ct_eq(&ctx.expected_input_state) {
            return VerificationResult::StateMismatch(
                "Transition input state does not match expected active state",
            );
        }
        // 1. Epoch temporal validation
        if !ctx.epoch_engine.validate_transition_binding(
            &ctx.transition.metadata.epoch_id,
            ctx.transition.metadata.timestamp_ms,
        ) {
            return VerificationResult::Stale(
                "Epoch is inactive, expired, or transition timestamp is out of bounds",
            );
        }
        // 2-3. Authority resolution and signature over the signed
        // representation, which binds the class
        let authority_id = &ctx.transition.metadata.authority_id;
        let serialized_transition = transition_signing_bytes(ctx.transition, ctx.transition_class.bits());
        match ctx.authority_engine.verify_signature(
            authority_id,
            serialized_transition.as_slice(),
            ctx.signature,
        ) {
            Ok(()) => {},
            Err(_) => {
                if !ctx.authority_engine.is_registered(authority_id) {
                    return VerificationResult::Unknown("Authority not registered");
                }
                return VerificationResult::Invalid("Cryptographic signature verification failed");
            },
        }
        // 4. Policy evaluation
        let has_minimum_capability = ctx.authority_engine.check_capability(
            authority_id,
            ctx.policy.minimum_capability,
        );
        let capabilities = if has_minimum_capability {
            ctx.policy.minimum_capability
        } else {
            AuthorityCapability::empty()
        };
        let eval_ctx = EvaluationContext {
            transition_protocol_version: ctx.transition_protocol_version,
            metadata: &ctx.transition.metadata,
            parent_state_timestamp_ms: ctx.parent_state_timestamp_ms,
            has_evidence: ctx.has_evidence,
            transition_class: ctx.transition_class,
            authority_capabilities: capabilities,
        };
        match ctx.policy_engine.evaluate(ctx.policy, &eval_ctx) {
            PolicyDecision::Accepted => {},
            PolicyDecision::Rejected(reason) => {
                return match reason {
                    PolicyRejectionReason::ProtocolVersionMismatch => VerificationResult::Incompatible(
                        "Protocol version mismatch",
                    ),
                    PolicyRejectionReason::StateFreshnessViolation => VerificationResult::Stale(
                        "State freshness threshold exceeded",
                    ),
                    PolicyRejectionReason::EvidenceMissing => VerificationResult::Incompatible(
                        "Required evidence missing",
                    ),
                    PolicyRejectionReason::TransitionClassNotAllowed => VerificationResult::Incompatible(
                        "Transition class not permitted by policy",
                    ),
                    PolicyRejectionReason::InsufficientAuthorityCapability => VerificationResult::Incompatible(
                        "Authority lacks required capability",
                    ),
                };
            },
        }
        // 5. Transition integrity: payload commitment and output state
        if !ctx.transition.validate(ctx.raw_payload, ctx.generated_output_state) {
            return VerificationResult::Invalid(
                "Transition integrity check failed (payload mismatch or output state mismatch)",
            );
        }
        VerificationResult::Valid
    }
}

// ---------------------------------------------------------------------------
// Laws
// ---------------------------------------------------------------------------

/// A transition is valid only when every check passes: it has not been seen,
/// it applies to the expected input state, its epoch binds it at its
/// timestamp, its authority is registered and signed its canonical bytes,
/// the policy accepts it, and its payload commitment and output state match.
pub proof fn lemma_valid_passes_every_check(ctx: VerificationContext)
    requires
        verification_outcome(ctx) == VerificationResult::Valid,
    ensures
        ctx.raw_payload@.len() <= MAX_TRANSITION_PAYLOAD_SIZE,
        !ctx.seen_transitions.history_view().contains(ctx.transition.id.0),
        ctx.transition.input_state@ == ctx.expected_input_state@,
        binding_valid(
            ctx.epoch_engine.epochs_view(),
            ctx.epoch_engine.active_view(),
            ctx.transition.metadata.epoch_id,
            ctx.transition.metadata.timestamp_ms,
        ),
        ctx.authority_engine.authorities_view().dom().contains(
            ctx.transition.metadata.authority_id@,
        ),
        ed25519_key_decodes(ctx.transition.metadata.authority_id@),
        ed25519_strict_accepts(
            ctx.transition.metadata.authority_id@,
            signing_bytes(ctx.transition@, ctx.transition_class.spec_bits()),
            ctx.signature@,
        ),
        policy_decision(
            *ctx.policy,
            ctx.transition_protocol_version,
            ctx.transition.metadata.timestamp_ms,
            ctx.parent_state_timestamp_ms,
            ctx.has_evidence,
            ctx.transition_class,
            effective_capabilities(ctx),
        ) == PolicyDecision::Accepted,
        ctx.transition.payload_commitment@ == blake3_digest(
            TRANSITION_DOMAIN_V1@ + ctx.raw_payload@,
        ),
        ctx.transition.output_state@ == ctx.generated_output_state@,
{
}

/// The class is part of what is signed: a transition's signed
/// representations under two different classes differ, so a signature over
/// one is a signature over other bytes than the other.
pub proof fn lemma_class_is_signed(t: TransitionV, c1: u32, c2: u32)
    requires
        c1 != c2,
    ensures
        signing_bytes(t, c1) != signing_bytes(t, c2),
{
    lemma_enc_u32_len(c1);
    lemma_enc_u32_len(c2);
    let s1 = signing_bytes(t, c1);
    let s2 = signing_bytes(t, c2);
    let n = enc_transition(t).len() as int;
    assert(s1.subrange(0, s1.len() as int) =~= s1);
    assert(s2.subrange(0, s2.len() as int) =~= s2);
    lemma_holds_at_split(s1, 0, enc_transition(t), enc_u32(c1));
    lemma_holds_at_split(s2, 0, enc_transition(t), enc_u32(c2));
    lemma_p_u32(s1, n, c1);
    lemma_p_u32(s2, n, c2);
}

/// A transition whose identifier was already recorded is refused as a
/// duplicate, whatever else holds of it (unless its payload is oversized,
/// which is refused first).
pub proof fn lemma_seen_transition_is_duplicate(ctx: VerificationContext)
    requires
        ctx.seen_transitions.history_view().contains(ctx.transition.id.0),
        ctx.raw_payload@.len() <= MAX_TRANSITION_PAYLOAD_SIZE,
    ensures
        verification_outcome(ctx) == VerificationResult::Duplicate(
            "Transition has already been applied",
        ),
{
}

/// A transition signed by an authority that is not registered is refused
/// as unknown, once the earlier checks pass.
pub proof fn lemma_unregistered_authority_is_unknown(ctx: VerificationContext)
    requires
        !ctx.authority_engine.authorities_view().dom().contains(
            ctx.transition.metadata.authority_id@,
        ),
        ctx.raw_payload@.len() <= MAX_TRANSITION_PAYLOAD_SIZE,
        !ctx.seen_transitions.history_view().contains(ctx.transition.id.0),
        ctx.transition.input_state@ == ctx.expected_input_state@,
        binding_valid(
            ctx.epoch_engine.epochs_view(),
            ctx.epoch_engine.active_view(),
            ctx.transition.metadata.epoch_id,
            ctx.transition.metadata.timestamp_ms,
        ),
    ensures
        verification_outcome(ctx) == VerificationResult::Unknown("Authority not registered"),
{
}

/// A valid transition comes from a registered authority that holds every
/// capability the policy requires.
pub proof fn lemma_valid_requires_capability(ctx: VerificationContext)
    requires
        verification_outcome(ctx) == VerificationResult::Valid,
    ensures
        ctx.authority_engine.authorities_view().dom().contains(
            ctx.transition.metadata.authority_id@,
        ),
        ctx.authority_engine.authorities_view()[ctx.transition.metadata.authority_id@].capabilities.spec_contains(
            ctx.policy.minimum_capability,
        ),
{
    lemma_valid_passes_every_check(ctx);
    let id = ctx.transition.metadata.authority_id@;
    lemma_empty_contains_only_nothing(
        ctx.authority_engine.authorities_view()[id].capabilities,
        ctx.policy.minimum_capability,
    );
}

} // verus!
