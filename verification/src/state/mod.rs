//! Canonical state envelopes and deterministic state domains.
use crate::authority::AuthorityId;
use crate::commitment::StateCommitment;
use crate::epoch::EpochId;
use crate::version::ProtocolVersion;
use vstd::prelude::*;

pub mod kv_canonical;
pub mod kv_state;

verus! {

/// `StateId` uniquely identifies a specific state representation.
#[derive(Debug, Clone, Copy, PartialEq, Eq, Hash)]
pub struct StateId(pub [u8; 32]);

/// `ParentStateId` links a state to its predecessor.
#[derive(Debug, Clone, Copy, PartialEq, Eq, Hash)]
pub struct ParentStateId(pub [u8; 32]);

/// `StateVersion` represents the monotonic version number of the state.
pub type StateVersion = u64;

/// `SimulationTick` represents the logical time of the simulation.
pub type SimulationTick = u64;

/// `CanonicalState` models the conceptually agreed state envelope.
#[derive(Debug, Clone, Copy, PartialEq, Eq)]
pub struct CanonicalState {
    pub state_id: StateId,
    pub parent_state_id: Option<ParentStateId>,
    pub epoch_id: EpochId,
    pub authority_id: AuthorityId,
    pub state_version: StateVersion,
    pub simulation_tick: SimulationTick,
    pub state_commitment: StateCommitment,
    pub protocol_version: ProtocolVersion,
}

/// The content of a canonical state, identifiers and commitments as byte
/// sequences.
pub struct CanonicalStateV {
    pub state_id: Seq<u8>,
    pub parent_state_id: Option<Seq<u8>>,
    pub epoch_id: Seq<u8>,
    pub authority_id: Seq<u8>,
    pub state_version: u64,
    pub simulation_tick: u64,
    pub state_commitment: Seq<u8>,
    pub protocol_version: ProtocolVersion,
}

impl View for CanonicalState {
    type V = CanonicalStateV;

    open spec fn view(&self) -> CanonicalStateV {
        CanonicalStateV {
            state_id: self.state_id.0@,
            parent_state_id: match self.parent_state_id {
                Some(p) => Some(p.0@),
                None => None,
            },
            epoch_id: self.epoch_id@,
            authority_id: self.authority_id@,
            state_version: self.state_version,
            simulation_tick: self.simulation_tick,
            state_commitment: self.state_commitment@,
            protocol_version: self.protocol_version,
        }
    }
}

/// Errors that can occur while producing the canonical bytes of a state.
#[derive(Debug, Clone, PartialEq, Eq)]
pub enum StateSerializationError {
    /// A collection is too long for its `u32` length prefix.
    SerializationFailed(&'static str),
}

/// Explicit state ownership and domain registration.
/// Only state within this boundary participates in deterministic commitments.
pub trait DeterministicStateDomain {
    /// Returns the canonical, deterministically serialized bytes of the
    /// domain, free of platform-specific padding or layout artifacts.
    fn canonicalize(&self) -> Result<Vec<u8>, StateSerializationError>;
}

} // verus!
