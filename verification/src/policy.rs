//! Versioned deterministic policies for accepting state transitions.
use crate::authority::{lemma_capability_union, AuthorityCapability};
use crate::transition::TransitionMetadata;
use vstd::prelude::*;

verus! {

/// The bit of `INPUT`.
pub const INPUT_BIT: u32 = 1;

/// The bit of `SPAWN`.
pub const SPAWN_BIT: u32 = 2;

/// The bit of `TIME_CONTROL`.
pub const TIME_CONTROL_BIT: u32 = 4;

/// The bit of `ADMIN`.
pub const ADMIN_BIT: u32 = 0x8000_0000;

/// All defined transition-class bits.
pub const ALL_TRANSITION_CLASS_BITS: u32 = 0x8000_0007;

/// Categorizes the type of a transition to enforce policy limits: a `u32`
/// bit mask.
#[derive(Debug, Clone, Copy, PartialEq, Eq, Structural, Hash)]
pub struct TransitionClass {
    bits: u32,
}

impl TransitionClass {
    /// The bit mask.
    pub closed spec fn spec_bits(self) -> u32 {
        self.bits
    }

    /// Whether every bit of `other` is set in `self`.
    pub open spec fn spec_contains(self, other: Self) -> bool {
        self.spec_bits() & other.spec_bits() == other.spec_bits()
    }

    /// The class set with the given bits.
    pub closed spec fn with_bits(bits: u32) -> Self {
        TransitionClass { bits }
    }

    /// Standard user input (e.g., movement, action).
    #[allow(non_snake_case)]
    pub fn INPUT() -> (r: Self)
        ensures
            r.spec_bits() == INPUT_BIT,
    {
        TransitionClass { bits: INPUT_BIT }
    }

    /// Spawning or destruction of an entity.
    #[allow(non_snake_case)]
    pub fn SPAWN() -> (r: Self)
        ensures
            r.spec_bits() == SPAWN_BIT,
    {
        TransitionClass { bits: SPAWN_BIT }
    }

    /// Explicit mutation of time or epoch boundaries.
    #[allow(non_snake_case)]
    pub fn TIME_CONTROL() -> (r: Self)
        ensures
            r.spec_bits() == TIME_CONTROL_BIT,
    {
        TransitionClass { bits: TIME_CONTROL_BIT }
    }

    /// High-priority administrative action.
    #[allow(non_snake_case)]
    pub fn ADMIN() -> (r: Self)
        ensures
            r.spec_bits() == ADMIN_BIT,
    {
        TransitionClass { bits: ADMIN_BIT }
    }

    /// No class.
    pub fn empty() -> (r: Self)
        ensures
            r.spec_bits() == 0,
    {
        TransitionClass { bits: 0 }
    }

    /// Every defined class.
    pub fn all() -> (r: Self)
        ensures
            r.spec_bits() == ALL_TRANSITION_CLASS_BITS,
    {
        TransitionClass { bits: ALL_TRANSITION_CLASS_BITS }
    }

    /// The raw bit mask.
    pub fn bits(&self) -> (r: u32)
        ensures
            r == self.spec_bits(),
    {
        self.bits
    }

    /// Builds a class set from bits, refusing undefined bits.
    pub fn from_bits(bits: u32) -> (r: Option<Self>)
        ensures
            r matches Some(c) ==> c.spec_bits() == bits && c == Self::with_bits(bits),
            r is Some <==> bits & !ALL_TRANSITION_CLASS_BITS == 0,
    {
        if bits & !ALL_TRANSITION_CLASS_BITS == 0 {
            Some(TransitionClass { bits })
        } else {
            None
        }
    }

    /// Builds a class set from bits, dropping undefined bits.
    pub fn from_bits_truncate(bits: u32) -> (r: Self)
        ensures
            r.spec_bits() == bits & ALL_TRANSITION_CLASS_BITS,
            r == Self::with_bits(bits & ALL_TRANSITION_CLASS_BITS),
    {
        TransitionClass { bits: bits & ALL_TRANSITION_CLASS_BITS }
    }

    /// The union of two class sets.
    pub fn union(self, other: Self) -> (r: Self)
        ensures
            r.spec_bits() == self.spec_bits() | other.spec_bits(),
    {
        TransitionClass { bits: self.bits | other.bits }
    }

    /// Whether every class of `other` is in `self`.
    pub fn contains(&self, other: Self) -> (r: bool)
        ensures
            r == self.spec_contains(other),
    {
        self.bits & other.bits == other.bits
    }
}

/// A versioned deterministic policy dictating the global rules for
/// accepting state transitions.
#[derive(Debug, Clone, Copy, PartialEq, Eq)]
pub struct Policy {
    /// The strict protocol version expected by the network.
    pub protocol_version: u32,
    /// Maximum allowed delta in milliseconds between a transition's timestamp
    /// and the timestamp of the state it is applied to.
    pub max_state_freshness_ms: u64,
    /// Whether transitions must be accompanied by verified evidence.
    pub require_evidence: bool,
    /// The transition classes currently allowed.
    pub allowed_transition_classes: TransitionClass,
    /// Minimum authority capability required to submit any transition.
    pub minimum_capability: AuthorityCapability,
}

/// Specific deterministic reasons for a policy rejection.
#[derive(Debug, Clone, Copy, PartialEq, Eq, Structural)]
pub enum PolicyRejectionReason {
    ProtocolVersionMismatch,
    StateFreshnessViolation,
    EvidenceMissing,
    TransitionClassNotAllowed,
    InsufficientAuthorityCapability,
}

/// The result of evaluating a transition against the active policy.
#[derive(Debug, Clone, Copy, PartialEq, Eq, Structural)]
pub enum PolicyDecision {
    Accepted,
    Rejected(PolicyRejectionReason),
}

/// The arguments of a policy evaluation.
#[derive(Debug, Clone)]
pub struct EvaluationContext<'a> {
    pub transition_protocol_version: u32,
    pub metadata: &'a TransitionMetadata,
    pub parent_state_timestamp_ms: u64,
    pub has_evidence: bool,
    pub transition_class: TransitionClass,
    pub authority_capabilities: AuthorityCapability,
}

/// The decision of `policy` on a transition with the given attributes. The
/// checks run in a fixed order and the first failing one decides: protocol
/// version, evidence, state freshness (the transition may not pre-date its
/// parent state nor be more than `max_state_freshness_ms` after it),
/// transition class, and authority capability.
pub open spec fn policy_decision(
    policy: Policy,
    protocol_version: u32,
    timestamp_ms: u64,
    parent_state_timestamp_ms: u64,
    has_evidence: bool,
    transition_class: TransitionClass,
    authority_capabilities: AuthorityCapability,
) -> PolicyDecision {
    if protocol_version != policy.protocol_version {
        PolicyDecision::Rejected(PolicyRejectionReason::ProtocolVersionMismatch)
    } else if policy.require_evidence && !has_evidence {
        PolicyDecision::Rejected(PolicyRejectionReason::EvidenceMissing)
    } else if timestamp_ms < parent_state_timestamp_ms || timestamp_ms - parent_state_timestamp_ms
        > policy.max_state_freshness_ms {
        PolicyDecision::Rejected(PolicyRejectionReason::StateFreshnessViolation)
    } else if !policy.allowed_transition_classes.spec_contains(transition_class) {
        PolicyDecision::Rejected(PolicyRejectionReason::TransitionClassNotAllowed)
    } else if !authority_capabilities.spec_contains(policy.minimum_capability) {
        PolicyDecision::Rejected(PolicyRejectionReason::InsufficientAuthorityCapability)
    } else {
        PolicyDecision::Accepted
    }
}

/// The deterministic engine for evaluating transitions against a global policy.
#[derive(Debug, Default)]
pub struct PolicyEngine;

impl PolicyEngine {
    pub fn new() -> (r: Self) {
        PolicyEngine
    }

    /// Evaluates a transition context against the provided policy.
    pub fn evaluate(&self, policy: &Policy, ctx: &EvaluationContext) -> (r: PolicyDecision)
        ensures
            r == policy_decision(
                *policy,
                ctx.transition_protocol_version,
                ctx.metadata.timestamp_ms,
                ctx.parent_state_timestamp_ms,
                ctx.has_evidence,
                ctx.transition_class,
                ctx.authority_capabilities,
            ),
    {
        // 1. Protocol version
        if ctx.transition_protocol_version != policy.protocol_version {
            return PolicyDecision::Rejected(PolicyRejectionReason::ProtocolVersionMismatch);
        }
        // 2. Evidence requirements
        if policy.require_evidence && !ctx.has_evidence {
            return PolicyDecision::Rejected(PolicyRejectionReason::EvidenceMissing);
        }
        // 3. State freshness (delta between transition and parent state)
        if ctx.metadata.timestamp_ms >= ctx.parent_state_timestamp_ms {
            let delta = ctx.metadata.timestamp_ms - ctx.parent_state_timestamp_ms;
            if delta > policy.max_state_freshness_ms {
                return PolicyDecision::Rejected(PolicyRejectionReason::StateFreshnessViolation);
            }
        } else {
            // A transition cannot pre-date the state it is applied against.
            return PolicyDecision::Rejected(PolicyRejectionReason::StateFreshnessViolation);
        }
        // 4. Transition class allowance
        if !policy.allowed_transition_classes.contains(ctx.transition_class) {
            return PolicyDecision::Rejected(PolicyRejectionReason::TransitionClassNotAllowed);
        }
        // 5. Authority capability requirement
        if !ctx.authority_capabilities.contains(policy.minimum_capability) {
            return PolicyDecision::Rejected(PolicyRejectionReason::InsufficientAuthorityCapability);
        }
        PolicyDecision::Accepted
    }
}

// ---------------------------------------------------------------------------
// Laws
// ---------------------------------------------------------------------------

/// A policy accepts exactly the transitions that pass every check: the
/// protocol version matches, evidence is present when required, the
/// transition is at most `max_state_freshness_ms` after its parent state and
/// not before it, its class is allowed, and the authority holds the minimum
/// capability.
pub proof fn lemma_policy_accepts_exactly(
    policy: Policy,
    protocol_version: u32,
    timestamp_ms: u64,
    parent_state_timestamp_ms: u64,
    has_evidence: bool,
    transition_class: TransitionClass,
    authority_capabilities: AuthorityCapability,
)
    ensures
        policy_decision(
            policy,
            protocol_version,
            timestamp_ms,
            parent_state_timestamp_ms,
            has_evidence,
            transition_class,
            authority_capabilities,
        ) == PolicyDecision::Accepted <==> {
            &&& protocol_version == policy.protocol_version
            &&& (!policy.require_evidence || has_evidence)
            &&& parent_state_timestamp_ms <= timestamp_ms
            &&& timestamp_ms <= parent_state_timestamp_ms + policy.max_state_freshness_ms
            &&& policy.allowed_transition_classes.spec_contains(transition_class)
            &&& authority_capabilities.spec_contains(policy.minimum_capability)
        },
{
}

/// Granting an authority more capabilities never turns an accepted
/// transition into a rejected one.
pub proof fn lemma_policy_monotone_in_capabilities(
    policy: Policy,
    protocol_version: u32,
    timestamp_ms: u64,
    parent_state_timestamp_ms: u64,
    has_evidence: bool,
    transition_class: TransitionClass,
    fewer: AuthorityCapability,
    more: AuthorityCapability,
)
    requires
        more.spec_contains(fewer),
        policy_decision(
            policy,
            protocol_version,
            timestamp_ms,
            parent_state_timestamp_ms,
            has_evidence,
            transition_class,
            fewer,
        ) == PolicyDecision::Accepted,
    ensures
        policy_decision(
            policy,
            protocol_version,
            timestamp_ms,
            parent_state_timestamp_ms,
            has_evidence,
            transition_class,
            more,
        ) == PolicyDecision::Accepted,
{
    lemma_capability_union(more, fewer, policy.minimum_capability);
}

} // verus!
