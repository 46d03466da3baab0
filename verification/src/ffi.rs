//! Library-side types of the C interface: result codes, the handles that
//! own engines and values on behalf of a C caller, and the flat divergence
//! report, with the conversions that fill them.
use crate::authority::{
    ed25519_public_key, ed25519_public_key_of, ed25519_sign, ed25519_signature, Authority,
    AuthorityCapability, AuthorityEngine, AuthorityId, AuthorityRole, CAN_SPAWN_BIT,
    CAN_SUBMIT_TRANSITION_BIT,
};
use crate::commitment::StateCommitment;
use crate::epoch::EpochEngine;
use crate::policy::{Policy, PolicyEngine, TransitionClass, ALL_TRANSITION_CLASS_BITS};
use crate::protocol::codec::{
    decode_outcome, encode_outcome, lemma_codec_roundtrip, CodecError, LaurnCodec,
};
use crate::protocol::{
    LaurnMessage, LaurnMessagePayload, MessageV, PayloadV, TransitionMessage, TransitionMessageV,
};
use crate::replay::divergence::{DivergenceReason, DivergenceReport};
use crate::replay::{ReplayReader, ReplayRecorder};
use crate::transition::{build_transition, built_transition_v, Transition};
use crate::verification::replay::{history_after_insert, ReplayBuffer};
use crate::verification::{
    signing_bytes, transition_signing_bytes, verification_outcome, VerificationContext, VerificationEngine, VerificationResult,
};
use crate::version::ProtocolVersion;
use vstd::prelude::*;

verus! {

/// The status returned by every operation of the C interface.
#[derive(Debug, Clone, Copy, PartialEq, Eq, Structural)]
pub enum LaurnResult {
    /// Operation succeeded.
    Success,
    /// A null pointer was passed for a required argument.
    NullPointer,
    /// A panic occurred across the FFI boundary.
    Panic,
    /// Memory allocation failed.
    OutOfMemory,
    /// Buffer provided was too small.
    BufferTooSmall,
    /// Decoding failed due to truncation, bad magic bytes, or malformed data.
    DecodeFailed,
    /// Verification of the transition failed.
    VerificationFailed,
    /// Invalid configuration was provided.
    InvalidConfig,
    /// Encoding failed.
    EncodeFailed,
    /// Verification failed because the transition is a duplicate.
    VerificationDuplicate,
    /// Verification failed because the input state mismatched.
    VerificationStateMismatch,
    /// End of stream reached.
    EndOfStream,
    /// Divergence detected between replay streams.
    DivergenceDetected,
}

impl LaurnResult {
    /// The status that reports a verification result: success when valid,
    /// the two dedicated codes for a duplicate and a state mismatch, and a
    /// generic failure otherwise.
    pub fn from_verification(result: &VerificationResult) -> (r: LaurnResult)
        ensures
            r == match *result {
                VerificationResult::Valid => LaurnResult::Success,
                VerificationResult::Duplicate(_) => LaurnResult::VerificationDuplicate,
                VerificationResult::StateMismatch(_) => LaurnResult::VerificationStateMismatch,
                _ => LaurnResult::VerificationFailed,
            },
    {
        match result {
            VerificationResult::Valid => LaurnResult::Success,
            VerificationResult::Duplicate(_) => LaurnResult::VerificationDuplicate,
            VerificationResult::StateMismatch(_) => LaurnResult::VerificationStateMismatch,
            _ => LaurnResult::VerificationFailed,
        }
    }
}

/// The protocol version packed in one integer: `major << 16 | minor << 8 |
/// patch`, each part truncated to the bits it is shifted into.
pub fn version_code(v: ProtocolVersion) -> (r: u32)
    ensures
        r == ((v.major << 16u32) | (v.minor << 8u32) | v.patch),
{
    (v.major << 16u32) | (v.minor << 8u32) | v.patch
}

/// Owns an authority engine for a C caller.
pub struct LaurnAuthorityEngineHandle {
    pub inner: AuthorityEngine,
}

/// Owns an epoch engine for a C caller.
pub struct LaurnEpochEngineHandle {
    pub inner: EpochEngine,
}

/// Owns a policy engine for a C caller.
pub struct LaurnPolicyEngineHandle {
    pub inner: PolicyEngine,
}

/// Owns a transition, with the class it was submitted under.
pub struct LaurnTransitionHandle {
    pub inner: Transition,
    pub transition_class: u32,
}

/// Owns a decoded message.
pub struct LaurnMessageHandle {
    pub inner: LaurnMessage,
}

/// Owns a policy.
pub struct LaurnPolicyHandle {
    pub inner: Policy,
}

/// Owns a replay recorder.
pub struct LaurnReplayRecorderHandle {
    pub inner: ReplayRecorder,
}

/// Owns a replay reader over a buffer that outlives it.
pub struct LaurnReplayReaderHandle {
    pub inner: ReplayReader<'static>,
}

/// The kind of a divergence, without its data.
#[derive(Debug, Clone, Copy, PartialEq, Eq, Structural)]
pub enum LaurnDivergenceReason {
    ParentMismatch,
    CommitmentMismatch,
    EpochMismatch,
    AuthorityMismatch,
    PayloadMismatch,
    LengthMismatch,
    DecodeFailed,
}

/// A divergence report laid out flat: the reason's kind, and the data of
/// its kind in the matching fields; every other field is zero.
#[derive(Debug, Clone, Copy)]
pub struct LaurnDivergenceReport {
    pub frame_index: u32,
    pub reason: LaurnDivergenceReason,
    pub expected_commitment: [u8; 32],
    pub actual_commitment: [u8; 32],
    pub expected_epoch: [u8; 32],
    pub actual_epoch: [u8; 32],
    pub expected_authority: [u8; 32],
    pub actual_authority: [u8; 32],
    pub expected_frames: u32,
    pub actual_frames: u32,
}

pub open spec fn zero32() -> Seq<u8> {
    Seq::new(32, |i: int| 0u8)
}

/// Whether a flat report holds what `report` says.
pub open spec fn flattens(c: LaurnDivergenceReport, report: DivergenceReport) -> bool {
    let commits_set = report.reason is ParentMismatch || report.reason is CommitmentMismatch;
    let epochs_set = report.reason is EpochMismatch;
    let authorities_set = report.reason is AuthorityMismatch;
    let frames_set = report.reason is LengthMismatch;
    &&& c.frame_index == report.frame_index
    &&& c.reason == match report.reason {
        DivergenceReason::ParentMismatch { .. } => LaurnDivergenceReason::ParentMismatch,
        DivergenceReason::CommitmentMismatch { .. } => LaurnDivergenceReason::CommitmentMismatch,
        DivergenceReason::EpochMismatch { .. } => LaurnDivergenceReason::EpochMismatch,
        DivergenceReason::AuthorityMismatch { .. } => LaurnDivergenceReason::AuthorityMismatch,
        DivergenceReason::PayloadMismatch => LaurnDivergenceReason::PayloadMismatch,
        DivergenceReason::LengthMismatch { .. } => LaurnDivergenceReason::LengthMismatch,
        DivergenceReason::DecodeFailed => LaurnDivergenceReason::DecodeFailed,
    }
    &&& match report.reason {
        DivergenceReason::ParentMismatch { expected, actual } => c.expected_commitment@
            == expected@ && c.actual_commitment@ == actual@,
        DivergenceReason::CommitmentMismatch { expected, actual } => c.expected_commitment@
            == expected@ && c.actual_commitment@ == actual@,
        DivergenceReason::EpochMismatch { expected, actual } => c.expected_epoch@ == expected@
            && c.actual_epoch@ == actual@,
        DivergenceReason::AuthorityMismatch { expected, actual } => c.expected_authority@
            == expected@ && c.actual_authority@ == actual@,
        DivergenceReason::LengthMismatch { expected_frames, actual_frames } => c.expected_frames
            == expected_frames && c.actual_frames == actual_frames,
        _ => true,
    }
    &&& !commits_set ==> c.expected_commitment@ == zero32() && c.actual_commitment@ == zero32()
    &&& !epochs_set ==> c.expected_epoch@ == zero32() && c.actual_epoch@ == zero32()
    &&& !authorities_set ==> c.expected_authority@ == zero32() && c.actual_authority@ == zero32()
    &&& !frames_set ==> c.expected_frames == 0 && c.actual_frames == 0
}

impl LaurnDivergenceReport {
    /// Flattens a divergence report.
    pub fn from_report(report: &DivergenceReport) -> (r: LaurnDivergenceReport)
        ensures
            flattens(r, *report),
    {
        let zero: [u8; 32] = [0u8; 32];
        assert(zero@ =~= zero32());
        let mut c = LaurnDivergenceReport {
            frame_index: report.frame_index,
            reason: LaurnDivergenceReason::DecodeFailed,
            expected_commitment: zero,
            actual_commitment: zero,
            expected_epoch: zero,
            actual_epoch: zero,
            expected_authority: zero,
            actual_authority: zero,
            expected_frames: 0,
            actual_frames: 0,
        };
        match &report.reason {
            DivergenceReason::ParentMismatch { expected, actual } => {
                c.reason = LaurnDivergenceReason::ParentMismatch;
                c.expected_commitment = expected.0;
                c.actual_commitment = actual.0;
            },
            DivergenceReason::CommitmentMismatch { expected, actual } => {
                c.reason = LaurnDivergenceReason::CommitmentMismatch;
                c.expected_commitment = expected.0;
                c.actual_commitment = actual.0;
            },
            DivergenceReason::EpochMismatch { expected, actual } => {
                c.reason = LaurnDivergenceReason::EpochMismatch;
                c.expected_epoch = expected.0;
                c.actual_epoch = actual.0;
            },
            DivergenceReason::AuthorityMismatch { expected, actual } => {
                c.reason = LaurnDivergenceReason::AuthorityMismatch;
                c.expected_authority = expected.0;
                c.actual_authority = actual.0;
            },
            DivergenceReason::PayloadMismatch => {
                c.reason = LaurnDivergenceReason::PayloadMismatch;
            },
            DivergenceReason::LengthMismatch { expected_frames, actual_frames } => {
                c.reason = LaurnDivergenceReason::LengthMismatch;
                c.expected_frames = *expected_frames;
                c.actual_frames = *actual_frames;
            },
            DivergenceReason::DecodeFailed => {
                c.reason = LaurnDivergenceReason::DecodeFailed;
            },
        }
        c
    }
}

// ---------------------------------------------------------------------------
// Operations behind the C interface
// ---------------------------------------------------------------------------

/// The status reporting a verification result, in specifications.
pub open spec fn status_of(result: VerificationResult) -> LaurnResult {
    match result {
        VerificationResult::Valid => LaurnResult::Success,
        VerificationResult::Duplicate(_) => LaurnResult::VerificationDuplicate,
        VerificationResult::StateMismatch(_) => LaurnResult::VerificationStateMismatch,
        _ => LaurnResult::VerificationFailed,
    }
}

/// Verifies a transition submitted through the C interface and, when it is
/// valid, records its identifier among the seen transitions. A class mask
/// with undefined bits fails verification and records nothing.
pub fn verify_and_record(
    verifier: &VerificationEngine,
    transition: &Transition,
    raw_payload: &[u8],
    signature: &[u8; 64],
    expected_input_state: StateCommitment,
    generated_output_state: StateCommitment,
    authority_engine: &AuthorityEngine,
    epoch_engine: &EpochEngine,
    policy_engine: &PolicyEngine,
    policy: &Policy,
    parent_state_timestamp_ms: u64,
    has_evidence: bool,
    transition_protocol_version: u32,
    transition_class: u32,
    seen_transitions: &mut ReplayBuffer,
) -> (r: LaurnResult)
    requires
        authority_engine.wf(),
        epoch_engine.wf(),
        old(seen_transitions).wf(),
    ensures
        final(seen_transitions).wf(),
        final(seen_transitions).capacity_view() == old(seen_transitions).capacity_view(),
        transition_class & !ALL_TRANSITION_CLASS_BITS != 0 ==> r == LaurnResult::VerificationFailed
            && final(seen_transitions).history_view() == old(seen_transitions).history_view(),
        transition_class & !ALL_TRANSITION_CLASS_BITS == 0 ==> {
            let outcome = verification_outcome(
                VerificationContext {
                    transition,
                    raw_payload,
                    signature,
                    expected_input_state,
                    generated_output_state,
                    authority_engine,
                    epoch_engine,
                    policy_engine,
                    policy,
                    seen_transitions: &*old(seen_transitions),
                    parent_state_timestamp_ms,
                    has_evidence,
                    transition_protocol_version,
                    transition_class: TransitionClass::with_bits(transition_class),
                },
            );
            &&& r == status_of(outcome)
            &&& final(seen_transitions).history_view() == if outcome == VerificationResult::Valid {
                history_after_insert(
                    old(seen_transitions).history_view(),
                    old(seen_transitions).capacity_view(),
                    transition.id.0,
                )
            } else {
                old(seen_transitions).history_view()
            }
        },
{
    let class = match TransitionClass::from_bits(transition_class) {
        Some(c) => c,
        None => return LaurnResult::VerificationFailed,
    };
    let result = {
        let ctx = VerificationContext {
            transition,
            raw_payload,
            signature,
            expected_input_state,
            generated_output_state,
            authority_engine,
            epoch_engine,
            policy_engine,
            policy,
            seen_transitions: &*seen_transitions,
            parent_state_timestamp_ms,
            has_evidence,
            transition_protocol_version,
            transition_class: class,
        };
        verifier.verify(&ctx)
    };
    let status = LaurnResult::from_verification(&result);
    if status == LaurnResult::Success {
        seen_transitions.insert(transition.id);
    }
    status
}

/// The secret key of the built-in diagnostic authority: 32 bytes of 0x42.
pub open spec fn diagnostic_secret_spec() -> Seq<u8> {
    Seq::new(32, |i: int| 0x42u8)
}

fn diagnostic_secret() -> (r: [u8; 32])
    ensures
        r@ == diagnostic_secret_spec(),
{
    let s = [0x42u8; 32];
    assert(s@ =~= diagnostic_secret_spec());
    s
}

/// The built-in diagnostic authority: a client that may submit transitions
/// and spawn entities, identified by the public key of the diagnostic
/// secret.
pub fn diagnostic_authority() -> (r: Authority)
    ensures
        r.id@ == ed25519_public_key(diagnostic_secret_spec()),
        r.role == AuthorityRole::Client,
        r.capabilities.spec_bits() == CAN_SUBMIT_TRANSITION_BIT | CAN_SPAWN_BIT,
        r.session_binding is None,
{
    let secret = diagnostic_secret();
    Authority {
        id: AuthorityId(ed25519_public_key_of(&secret)),
        role: AuthorityRole::Client,
        capabilities: AuthorityCapability::CAN_SUBMIT_TRANSITION().union(
            AuthorityCapability::CAN_SPAWN(),
        ),
        session_binding: None,
    }
}

/// Registers the diagnostic authority; an engine that already holds it
/// answers `InvalidConfig` and is left unchanged.
pub fn register_diagnostic_authority(engine: &mut AuthorityEngine) -> (r: LaurnResult)
    requires
        old(engine).wf(),
    ensures
        final(engine).wf(),
        ({
            let key = ed25519_public_key(diagnostic_secret_spec());
            &&& old(engine).authorities_view().dom().contains(key) ==> r
                == LaurnResult::InvalidConfig && final(engine).authorities_view() == old(
                engine,
            ).authorities_view()
            &&& !old(engine).authorities_view().dom().contains(key) ==> r == LaurnResult::Success
                && final(engine).authorities_view().dom() == old(
                engine,
            ).authorities_view().dom().insert(key) && final(engine).authorities_view()[key].capabilities.spec_bits()
                == CAN_SUBMIT_TRANSITION_BIT | CAN_SPAWN_BIT
        }),
{
    let authority = diagnostic_authority();
    match engine.register_authority(authority) {
        Ok(()) => LaurnResult::Success,
        Err(_) => LaurnResult::InvalidConfig,
    }
}

/// Signs a transition with the diagnostic secret: the transition is built
/// from the arguments with the diagnostic authority as its authority, and
/// the signature covers its signed representation under the given class
/// (see `signing_bytes`). A class mask with undefined bits is refused with
/// `InvalidConfig`.
pub fn diagnostic_sign_transition(
    transition_id: u64,
    transition_class: u32,
    epoch_id: [u8; 32],
    timestamp_ms: u64,
    input_state_commitment: [u8; 32],
    output_state_commitment: [u8; 32],
    raw_payload: &[u8],
) -> (r: Result<([u8; 32], [u8; 64]), LaurnResult>)
    ensures
        transition_class & !ALL_TRANSITION_CLASS_BITS != 0 ==> r == Err::<
            ([u8; 32], [u8; 64]),
            LaurnResult,
        >(LaurnResult::InvalidConfig),
        transition_class & !ALL_TRANSITION_CLASS_BITS == 0 ==> (r matches Ok((a, s)) && {
            let key = ed25519_public_key(diagnostic_secret_spec());
            &&& a@ == key
            &&& s@ == ed25519_signature(
                diagnostic_secret_spec(),
                signing_bytes(
                    built_transition_v(
                        transition_id,
                        key,
                        epoch_id@,
                        timestamp_ms,
                        input_state_commitment@,
                        output_state_commitment@,
                        raw_payload@,
                    ),
                    transition_class,
                ),
            )
        }),
{
    let secret = diagnostic_secret();
    let authority_id = ed25519_public_key_of(&secret);
    let transition = build_transition(
        transition_id,
        authority_id,
        epoch_id,
        timestamp_ms,
        input_state_commitment,
        output_state_commitment,
        raw_payload,
    );
    if TransitionClass::from_bits(transition_class).is_none() {
        return Err(LaurnResult::InvalidConfig);
    }
    let signed_bytes = transition_signing_bytes(&transition, transition_class);
    let signature = ed25519_sign(&secret, signed_bytes.as_slice());
    Ok((authority_id, signature))
}

/// The message that `encode_transition_message` frames.
pub open spec fn transition_message_v(
    protocol_version: u32,
    transition: crate::transition::TransitionV,
    transition_class: u32,
    raw_payload: Seq<u8>,
    signature: Seq<u8>,
) -> MessageV {
    MessageV {
        version: ProtocolVersion { major: protocol_version, minor: 0, patch: 0 },
        payload: PayloadV::Transition(
            TransitionMessageV { transition, transition_class, raw_payload, signature },
        ),
    }
}

/// Builds a transition from the arguments and frames it, with its class,
/// in a transition message of the given protocol version. What it encodes
/// decodes back to that message, taking the whole buffer.
///
/// # Errors
/// Returns what `LaurnCodec::encode` returns on that message.
pub fn encode_transition_message(
    protocol_version: u32,
    transition_class: u32,
    transition_id: u64,
    authority_id: [u8; 32],
    epoch_id: [u8; 32],
    timestamp_ms: u64,
    input_state_commitment: [u8; 32],
    output_state_commitment: [u8; 32],
    raw_payload: &[u8],
    signature: [u8; 64],
) -> (r: Result<Vec<u8>, CodecError>)
    ensures
        ({
            let m = transition_message_v(
                protocol_version,
                built_transition_v(
                    transition_id,
                    authority_id@,
                    epoch_id@,
                    timestamp_ms,
                    input_state_commitment@,
                    output_state_commitment@,
                    raw_payload@,
                ),
                transition_class,
                raw_payload@,
                signature@,
            );
            match r {
                Ok(b) => encode_outcome(m) == Ok::<Seq<u8>, CodecError>(b@) && decode_outcome(b@)
                    == Ok::<(MessageV, int), CodecError>((m, b@.len() as int)),
                Err(e) => encode_outcome(m) == Err::<Seq<u8>, CodecError>(e),
            }
        }),
{
    let transition = build_transition(
        transition_id,
        authority_id,
        epoch_id,
        timestamp_ms,
        input_state_commitment,
        output_state_commitment,
        raw_payload,
    );
    let mut payload: Vec<u8> = Vec::new();
    crate::wire::write_raw(&mut payload, raw_payload);
    assert(payload@ =~= raw_payload@);
    let msg = LaurnMessage {
        version: ProtocolVersion::new(protocol_version, 0, 0),
        payload: LaurnMessagePayload::Transition(
            TransitionMessage { transition, transition_class, raw_payload: payload, signature },
        ),
    };
    let r = LaurnCodec::encode(&msg);
    proof {
        if encode_outcome(msg@) is Ok {
            lemma_codec_roundtrip(msg@);
        }
    }
    r
}

} // verus!
