//! Transitions: verifiable links from one state commitment to the next.
use crate::authority::AuthorityId;
use crate::commitment::{
    blake3_digest, ct_eq_32, CommitmentEngine, StateCommitment, TRANSITION_DOMAIN_V1,
};
use crate::epoch::EpochId;
use crate::wire::{
    enc_u64, holds_at, lemma_enc_u64_len, lemma_holds_at_split, lemma_p_u64, p_u64,
    read_arr32, read_u64, write_raw, write_u64,
};
use vstd::prelude::*;

verus! {

/// `TransitionCommitment` is a deterministic, canonical 32-byte commitment
/// (BLAKE3) to a state transition payload.
#[derive(Debug, Clone, Copy, Eq, Hash)]
pub struct TransitionCommitment(pub [u8; 32]);

impl View for TransitionCommitment {
    type V = Seq<u8>;

    open spec fn view(&self) -> Seq<u8> {
        self.0@
    }
}

impl TransitionCommitment {
    /// Returns a reference to the underlying byte array.
    pub fn as_bytes(&self) -> (r: &[u8; 32])
        ensures
            *r == self.0,
    {
        &self.0
    }

    /// Computes a `TransitionCommitment` from the provided canonical bytes,
    /// under the transition domain separator.
    pub fn compute(bytes: &[u8]) -> (r: Self)
        ensures
            r@ == blake3_digest(TRANSITION_DOMAIN_V1@ + bytes@),
    {
        let domain = TRANSITION_DOMAIN_V1;
        TransitionCommitment(CommitmentEngine::compute(&domain, bytes))
    }

    /// Constant-time equality of the commitment bytes.
    pub fn ct_eq(&self, other: &Self) -> (r: bool)
        ensures
            r == (self@ == other@),
    {
        ct_eq_32(&self.0, &other.0)
    }
}

impl PartialEq for TransitionCommitment {
    fn eq(&self, other: &Self) -> (r: bool) {
        self.ct_eq(other)
    }
}

impl vstd::std_specs::cmp::PartialEqSpecImpl for TransitionCommitment {
    open spec fn obeys_eq_spec() -> bool {
        true
    }

    open spec fn eq_spec(&self, other: &Self) -> bool {
        self.0@ == other.0@
    }
}

/// A unique identifier for a Transition within an Epoch.
#[derive(Debug, Clone, Copy, PartialEq, Eq, Structural, Hash)]
pub struct TransitionId(pub u64);

/// Metadata associated with a Transition, carrying authority and temporal
/// information. Timestamps are `u64` milliseconds.
#[derive(Debug, Clone, Copy, PartialEq, Eq)]
pub struct TransitionMetadata {
    pub authority_id: AuthorityId,
    pub epoch_id: EpochId,
    pub timestamp_ms: u64,
}

/// A verifiable transition linking `State[n]` to `State[n+1]`. It holds the
/// commitments of the inputs and outputs rather than the raw payloads.
#[derive(Debug, Clone, Copy, PartialEq, Eq)]
pub struct Transition {
    pub id: TransitionId,
    pub metadata: TransitionMetadata,
    pub input_state: StateCommitment,
    pub output_state: StateCommitment,
    pub payload_commitment: TransitionCommitment,
}

/// The byte-level content of a transition.
pub struct TransitionV {
    pub id: u64,
    pub authority_id: Seq<u8>,
    pub epoch_id: Seq<u8>,
    pub timestamp_ms: u64,
    pub input_state: Seq<u8>,
    pub output_state: Seq<u8>,
    pub payload_commitment: Seq<u8>,
}

impl View for Transition {
    type V = TransitionV;

    open spec fn view(&self) -> TransitionV {
        TransitionV {
            id: self.id.0,
            authority_id: self.metadata.authority_id@,
            epoch_id: self.metadata.epoch_id@,
            timestamp_ms: self.metadata.timestamp_ms,
            input_state: self.input_state@,
            output_state: self.output_state@,
            payload_commitment: self.payload_commitment@,
        }
    }
}

/// The encoded size of a transition.
pub const TRANSITION_ENCODED_LEN: usize = 176;

/// Every digest field of the transition content is 32 bytes long.
pub open spec fn transition_v_wf(t: TransitionV) -> bool {
    &&& t.authority_id.len() == 32
    &&& t.epoch_id.len() == 32
    &&& t.input_state.len() == 32
    &&& t.output_state.len() == 32
    &&& t.payload_commitment.len() == 32
}

/// The canonical encoding of a transition: the identifier and timestamp as
/// little-endian `u64`, the identifiers and commitments as raw 32 bytes, in
/// field order. This is the representation that authorities sign.
pub open spec fn enc_transition(t: TransitionV) -> Seq<u8> {
    enc_u64(t.id) + t.authority_id + t.epoch_id + enc_u64(t.timestamp_ms) + t.input_state
        + t.output_state + t.payload_commitment
}

/// Parses a transition at `pos`.
pub open spec fn p_transition(s: Seq<u8>, pos: int) -> Option<(TransitionV, int)> {
    if 0 <= pos && pos + 176 <= s.len() {
        Some(
            (
                TransitionV {
                    id: p_u64(s, pos).unwrap().0,
                    authority_id: s.subrange(pos + 8, pos + 40),
                    epoch_id: s.subrange(pos + 40, pos + 72),
                    timestamp_ms: p_u64(s, pos + 72).unwrap().0,
                    input_state: s.subrange(pos + 80, pos + 112),
                    output_state: s.subrange(pos + 112, pos + 144),
                    payload_commitment: s.subrange(pos + 144, pos + 176),
                },
                pos + 176,
            ),
        )
    } else {
        None
    }
}

pub proof fn lemma_enc_transition_len(t: TransitionV)
    requires
        transition_v_wf(t),
    ensures
        enc_transition(t).len() == 176,
{
    lemma_enc_u64_len(t.id);
    lemma_enc_u64_len(t.timestamp_ms);
}

pub proof fn lemma_p_transition(s: Seq<u8>, pos: int, t: TransitionV)
    requires
        transition_v_wf(t),
        holds_at(s, pos, enc_transition(t)),
    ensures
        p_transition(s, pos) == Some((t, pos + 176)),
{
    lemma_enc_transition_len(t);
    lemma_enc_u64_len(t.id);
    lemma_enc_u64_len(t.timestamp_ms);
    let e1 = enc_u64(t.id);
    let e2 = e1 + t.authority_id;
    let e3 = e2 + t.epoch_id;
    let e4 = e3 + enc_u64(t.timestamp_ms);
    let e5 = e4 + t.input_state;
    let e6 = e5 + t.output_state;
    lemma_holds_at_split(s, pos, e6, t.payload_commitment);
    lemma_holds_at_split(s, pos, e5, t.output_state);
    lemma_holds_at_split(s, pos, e4, t.input_state);
    lemma_holds_at_split(s, pos, e3, enc_u64(t.timestamp_ms));
    lemma_holds_at_split(s, pos, e2, t.epoch_id);
    lemma_holds_at_split(s, pos, e1, t.authority_id);
    lemma_p_u64(s, pos, t.id);
    lemma_p_u64(s, pos + 72, t.timestamp_ms);
}

impl Transition {
    /// Validates the transition: the raw payload must match
    /// `payload_commitment`, and the output state must match the one the
    /// host generated.
    pub fn validate(&self, raw_payload: &[u8], generated_output_state: StateCommitment) -> (r:
        bool)
        ensures
            r == (self.payload_commitment@ == blake3_digest(TRANSITION_DOMAIN_V1@ + raw_payload@)
                && self.output_state@ == generated_output_state@),
    {
        let computed_payload_commitment = TransitionCommitment::compute(raw_payload);
        if !self.payload_commitment.ct_eq(&computed_payload_commitment) {
            return false;
        }
        if !self.output_state.ct_eq(&generated_output_state) {
            return false;
        }
        true
    }

    /// Appends the canonical encoding of the transition.
    pub fn write_to(&self, out: &mut Vec<u8>)
        ensures
            final(out)@ == old(out)@ + enc_transition(self@),
    {
        write_u64(out, self.id.0);
        write_raw(out, &self.metadata.authority_id.0);
        write_raw(out, &self.metadata.epoch_id.0);
        write_u64(out, self.metadata.timestamp_ms);
        write_raw(out, &self.input_state.0);
        write_raw(out, &self.output_state.0);
        write_raw(out, &self.payload_commitment.0);
        assert(out@ =~= old(out)@ + enc_transition(self@));
    }

    /// The canonical encoding of the transition (the bytes that are signed).
    pub fn to_bytes(&self) -> (r: Vec<u8>)
        ensures
            r@ == enc_transition(self@),
    {
        let mut out: Vec<u8> = Vec::new();
        self.write_to(&mut out);
        assert(out@ =~= enc_transition(self@));
        out
    }

    /// Reads a transition at `pos`.
    pub fn read_from(buf: &[u8], pos: usize) -> (r: Option<(Transition, usize)>)
        ensures
            match r {
                Some((t, q)) => p_transition(buf@, pos as int) == Some((t@, q as int)),
                None => p_transition(buf@, pos as int) is None,
            },
    {
        if pos > buf.len() || buf.len() - pos < 176 {
            return None;
        }
        let (id, p1) = match read_u64(buf, pos) {
            Some(x) => x,
            None => return None,
        };
        let (authority_id, p2) = match read_arr32(buf, p1) {
            Some(x) => x,
            None => return None,
        };
        let (epoch_id, p3) = match read_arr32(buf, p2) {
            Some(x) => x,
            None => return None,
        };
        let (timestamp_ms, p4) = match read_u64(buf, p3) {
            Some(x) => x,
            None => return None,
        };
        let (input_state, p5) = match read_arr32(buf, p4) {
            Some(x) => x,
            None => return None,
        };
        let (output_state, p6) = match read_arr32(buf, p5) {
            Some(x) => x,
            None => return None,
        };
        let (payload_commitment, p7) = match read_arr32(buf, p6) {
            Some(x) => x,
            None => return None,
        };
        let t = Transition {
            id: TransitionId(id),
            metadata: TransitionMetadata {
                authority_id: AuthorityId(authority_id),
                epoch_id: EpochId(epoch_id),
                timestamp_ms,
            },
            input_state: StateCommitment(input_state),
            output_state: StateCommitment(output_state),
            payload_commitment: TransitionCommitment(payload_commitment),
        };
        Some((t, p7))
    }
}

/// The content of the transition that `build_transition` makes.
pub open spec fn built_transition_v(
    transition_id: u64,
    authority_id: Seq<u8>,
    epoch_id: Seq<u8>,
    timestamp_ms: u64,
    input_state: Seq<u8>,
    output_state: Seq<u8>,
    raw_payload: Seq<u8>,
) -> TransitionV {
    TransitionV {
        id: transition_id,
        authority_id,
        epoch_id,
        timestamp_ms,
        input_state,
        output_state,
        payload_commitment: blake3_digest(TRANSITION_DOMAIN_V1@ + raw_payload),
    }
}

/// Builds a transition from its fields, committing to the raw payload.
pub fn build_transition(
    transition_id: u64,
    authority_id: [u8; 32],
    epoch_id: [u8; 32],
    timestamp_ms: u64,
    input_state_commitment: [u8; 32],
    output_state_commitment: [u8; 32],
    raw_payload: &[u8],
) -> (r: Transition)
    ensures
        r.id == TransitionId(transition_id),
        r.metadata == (TransitionMetadata {
            authority_id: AuthorityId(authority_id),
            epoch_id: EpochId(epoch_id),
            timestamp_ms,
        }),
        r.input_state == StateCommitment(input_state_commitment),
        r.output_state == StateCommitment(output_state_commitment),
        r.payload_commitment@ == blake3_digest(TRANSITION_DOMAIN_V1@ + raw_payload@),
        r@ == built_transition_v(
            transition_id,
            authority_id@,
            epoch_id@,
            timestamp_ms,
            input_state_commitment@,
            output_state_commitment@,
            raw_payload@,
        ),
{
    Transition {
        id: TransitionId(transition_id),
        metadata: TransitionMetadata {
            authority_id: AuthorityId(authority_id),
            epoch_id: EpochId(epoch_id),
            timestamp_ms,
        },
        input_state: StateCommitment(input_state_commitment),
        output_state: StateCommitment(output_state_commitment),
        payload_commitment: TransitionCommitment::compute(raw_payload),
    }
}

} // verus!
