//! The LAURN network protocol: message types, the envelope that carries
//! them, their binary encoding (`format`) and the framed stream codec
//! (`codec`).
use crate::authority::{AuthorityCapability, AuthorityId};
use crate::delta::{DeltaOpV, StateDelta};
use crate::epoch::EpochId;
use crate::state::{CanonicalState, CanonicalStateV};
use crate::transition::{Transition, TransitionV};
use crate::version::ProtocolVersion;
use vstd::prelude::*;

pub mod format;
pub mod codec;

verus! {

/// A strictly bounded set of error codes for network communication.
/// Avoids the use of strings for deterministic and allocation-free error
/// handling.
#[derive(Debug, Clone, Copy, PartialEq, Eq, Structural)]
pub enum ErrorCode {
    /// Generic catch-all or unknown error.
    Unknown,
    /// Protocol version mismatch between peers.
    IncompatibleVersion,
    /// Authority failed authentication.
    AuthenticationFailed,
    /// Sent message was malformed or failed validation.
    MalformedMessage,
    /// Transition or epoch is stale.
    StaleTransition,
    /// Action requires higher capability.
    InsufficientCapability,
    /// Generic verification failure.
    VerificationFailed,
}

#[derive(Debug, Clone, Copy, PartialEq, Eq)]
pub struct HandshakeRequest {
    pub client_version: ProtocolVersion,
    pub client_authority: AuthorityId,
}

pub struct HandshakeRequestV {
    pub client_version: ProtocolVersion,
    pub client_authority: Seq<u8>,
}

impl View for HandshakeRequest {
    type V = HandshakeRequestV;

    open spec fn view(&self) -> HandshakeRequestV {
        HandshakeRequestV {
            client_version: self.client_version,
            client_authority: self.client_authority@,
        }
    }
}

#[derive(Debug, Clone, Copy, PartialEq, Eq)]
pub struct HandshakeResponse {
    pub server_version: ProtocolVersion,
    pub server_authority: AuthorityId,
    pub accepted: bool,
}

pub struct HandshakeResponseV {
    pub server_version: ProtocolVersion,
    pub server_authority: Seq<u8>,
    pub accepted: bool,
}

impl View for HandshakeResponse {
    type V = HandshakeResponseV;

    open spec fn view(&self) -> HandshakeResponseV {
        HandshakeResponseV {
            server_version: self.server_version,
            server_authority: self.server_authority@,
            accepted: self.accepted,
        }
    }
}

#[derive(Debug, Clone, Copy, PartialEq, Eq)]
pub struct CapabilityNegotiation {
    pub requested_capabilities: AuthorityCapability,
}

#[derive(Debug, Clone, Copy, PartialEq, Eq)]
pub struct StateMessage {
    pub state: CanonicalState,
}

#[derive(Debug, Clone, PartialEq, Eq)]
pub struct TransitionMessage {
    pub transition: Transition,
    /// The bits of the transition's class; part of what is signed.
    pub transition_class: u32,
    pub raw_payload: Vec<u8>,
    pub signature: [u8; 64],
}

pub struct TransitionMessageV {
    pub transition: TransitionV,
    pub transition_class: u32,
    pub raw_payload: Seq<u8>,
    pub signature: Seq<u8>,
}

impl View for TransitionMessage {
    type V = TransitionMessageV;

    open spec fn view(&self) -> TransitionMessageV {
        TransitionMessageV {
            transition: self.transition@,
            transition_class: self.transition_class,
            raw_payload: self.raw_payload@,
            signature: self.signature@,
        }
    }
}

#[derive(Debug, Clone, PartialEq, Eq)]
pub struct DeltaMessage {
    pub epoch_id: EpochId,
    pub delta: StateDelta,
}

pub struct DeltaMessageV {
    pub epoch_id: Seq<u8>,
    pub ops: Seq<DeltaOpV>,
}

impl View for DeltaMessage {
    type V = DeltaMessageV;

    open spec fn view(&self) -> DeltaMessageV {
        DeltaMessageV { epoch_id: self.epoch_id@, ops: self.delta@ }
    }
}

#[derive(Debug, Clone, Copy, PartialEq, Eq)]
pub struct VerificationMessage {
    /// The identifier of the transition (its `id.0`).
    pub transition_id: u64,
    pub is_valid: bool,
    pub error_code: Option<ErrorCode>,
}

#[derive(Debug, Clone, Copy, PartialEq, Eq)]
pub struct ErrorMessage {
    pub code: ErrorCode,
}

#[derive(Debug, Clone, Copy, PartialEq, Eq)]
pub struct ReplayMetadata {
    pub session_id: [u8; 32],
    pub start_epoch: EpochId,
    pub end_epoch: Option<EpochId>,
    pub tick_rate: u32,
}

pub struct ReplayMetadataV {
    pub session_id: Seq<u8>,
    pub start_epoch: Seq<u8>,
    pub end_epoch: Option<Seq<u8>>,
    pub tick_rate: u32,
}

impl View for ReplayMetadata {
    type V = ReplayMetadataV;

    open spec fn view(&self) -> ReplayMetadataV {
        ReplayMetadataV {
            session_id: self.session_id@,
            start_epoch: self.start_epoch@,
            end_epoch: match self.end_epoch {
                Some(e) => Some(e@),
                None => None,
            },
            tick_rate: self.tick_rate,
        }
    }
}

/// The exact internal payload of a LAURN network interaction.
#[derive(Debug, Clone, PartialEq, Eq)]
pub enum LaurnMessagePayload {
    HandshakeRequest(HandshakeRequest),
    HandshakeResponse(HandshakeResponse),
    CapabilityNegotiation(CapabilityNegotiation),
    State(StateMessage),
    Transition(TransitionMessage),
    Delta(DeltaMessage),
    Verification(VerificationMessage),
    Error(ErrorMessage),
    ReplayMetadata(ReplayMetadata),
}

/// The content of a payload. A capability set is its bit mask.
pub enum PayloadV {
    HandshakeRequest(HandshakeRequestV),
    HandshakeResponse(HandshakeResponseV),
    CapabilityNegotiation(u32),
    State(CanonicalStateV),
    Transition(TransitionMessageV),
    Delta(DeltaMessageV),
    Verification(VerificationMessage),
    Error(ErrorCode),
    ReplayMetadata(ReplayMetadataV),
}

impl View for LaurnMessagePayload {
    type V = PayloadV;

    open spec fn view(&self) -> PayloadV {
        match self {
            LaurnMessagePayload::HandshakeRequest(m) => PayloadV::HandshakeRequest(m@),
            LaurnMessagePayload::HandshakeResponse(m) => PayloadV::HandshakeResponse(m@),
            LaurnMessagePayload::CapabilityNegotiation(m) => PayloadV::CapabilityNegotiation(
                m.requested_capabilities.spec_bits(),
            ),
            LaurnMessagePayload::State(m) => PayloadV::State(m.state@),
            LaurnMessagePayload::Transition(m) => PayloadV::Transition(m@),
            LaurnMessagePayload::Delta(m) => PayloadV::Delta(m@),
            LaurnMessagePayload::Verification(m) => PayloadV::Verification(*m),
            LaurnMessagePayload::Error(m) => PayloadV::Error(m.code),
            LaurnMessagePayload::ReplayMetadata(m) => PayloadV::ReplayMetadata(m@),
        }
    }
}

/// The top-level envelope for all LAURN network messages.
/// With the `ProtocolVersion` at the outermost layer, receivers can reject
/// incompatible messages before parsing the full semantic payload.
#[derive(Debug, Clone, PartialEq, Eq)]
pub struct LaurnMessage {
    pub version: ProtocolVersion,
    pub payload: LaurnMessagePayload,
}

pub struct MessageV {
    pub version: ProtocolVersion,
    pub payload: PayloadV,
}

impl View for LaurnMessage {
    type V = MessageV;

    open spec fn view(&self) -> MessageV {
        MessageV { version: self.version, payload: self.payload@ }
    }
}

} // verus!
