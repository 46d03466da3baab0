//! The binary encoding of protocol messages.
//!
//! Fields are encoded in declaration order: integers little-endian, fixed
//! arrays as their raw bytes, byte vectors and lists as a `u32` length and
//! their elements, booleans as one byte 0 or 1, options as a tag byte 0
//! (none) or 1 (some) and the value, and enumerations as a one-byte variant
//! index and the variant's fields. Each encoding has a parser, and parsing
//! an encoding gives the value back.
use super::{
    CapabilityNegotiation, DeltaMessage, DeltaMessageV, ErrorCode, ErrorMessage,
    HandshakeRequest, HandshakeRequestV, HandshakeResponse, HandshakeResponseV, LaurnMessage,
    LaurnMessagePayload, MessageV, PayloadV, ReplayMetadata, ReplayMetadataV, StateMessage,
    TransitionMessage, TransitionMessageV, VerificationMessage,
};
use crate::authority::{AuthorityCapability, AuthorityId, ALL_CAPABILITY_BITS};
use crate::commitment::StateCommitment;
use crate::delta::{ops_view, CollectionChangeType, DeltaOp, DeltaOpV, StateDelta};
use crate::epoch::EpochId;
use crate::state::{CanonicalState, CanonicalStateV, ParentStateId, StateId};
use crate::transition::{
    enc_transition, lemma_enc_transition_len, lemma_p_transition, p_transition, transition_v_wf,
    Transition,
};
use crate::version::{enc_version, lemma_enc_version_len, lemma_p_version, p_version, ProtocolVersion};
use crate::wire::{
    bytes_fit, enc_bool, enc_bytes, enc_u32, enc_u64, holds_at, lemma_enc_u32_len,
    lemma_enc_u64_len, lemma_holds_at_split, lemma_holds_at_whole, lemma_p_bool, lemma_p_bytes,
    lemma_p_fixed, lemma_p_u32, lemma_p_u64, lemma_p_u8, p_bool, p_bytes, p_fixed, p_u32, p_u64,
    p_u8, read_arr32, read_arr64, read_bool, read_bytes, read_matches, read_u32, read_u64,
    read_u8, write_bool, write_bytes, write_raw, write_u32, write_u64, write_u8,
};
use vstd::prelude::*;

verus! {

// ---------------------------------------------------------------------------
// Error codes and options
// ---------------------------------------------------------------------------

pub open spec fn error_code_tag(c: ErrorCode) -> u8 {
    match c {
        ErrorCode::Unknown => 0,
        ErrorCode::IncompatibleVersion => 1,
        ErrorCode::AuthenticationFailed => 2,
        ErrorCode::MalformedMessage => 3,
        ErrorCode::StaleTransition => 4,
        ErrorCode::InsufficientCapability => 5,
        ErrorCode::VerificationFailed => 6,
    }
}

/// The error code with variant index `b` (for `b < 7`).
pub open spec fn error_code_of(b: u8) -> ErrorCode {
    if b == 0 {
        ErrorCode::Unknown
    } else if b == 1 {
        ErrorCode::IncompatibleVersion
    } else if b == 2 {
        ErrorCode::AuthenticationFailed
    } else if b == 3 {
        ErrorCode::MalformedMessage
    } else if b == 4 {
        ErrorCode::StaleTransition
    } else if b == 5 {
        ErrorCode::InsufficientCapability
    } else {
        ErrorCode::VerificationFailed
    }
}

pub open spec fn enc_error_code(c: ErrorCode) -> Seq<u8> {
    seq![error_code_tag(c)]
}

pub open spec fn p_error_code(s: Seq<u8>, pos: int) -> Option<(ErrorCode, int)> {
    match p_u8(s, pos) {
        Some((b, p)) => if b < 7 {
            Some((error_code_of(b), p))
        } else {
            None
        },
        None => None,
    }
}

pub open spec fn enc_opt_error_code(o: Option<ErrorCode>) -> Seq<u8> {
    match o {
        None => seq![0u8],
        Some(c) => seq![1u8] + enc_error_code(c),
    }
}

pub open spec fn p_opt_error_code(s: Seq<u8>, pos: int) -> Option<(Option<ErrorCode>, int)> {
    match p_u8(s, pos) {
        Some((t, p)) => if t == 0 {
            Some((None, p))
        } else if t == 1 {
            match p_error_code(s, p) {
                Some((c, q)) => Some((Some(c), q)),
                None => None,
            }
        } else {
            None
        },
        None => None,
    }
}

/// An optional 32-byte identifier.
pub open spec fn enc_opt32(o: Option<Seq<u8>>) -> Seq<u8> {
    match o {
        None => seq![0u8],
        Some(x) => seq![1u8] + x,
    }
}

pub open spec fn p_opt32(s: Seq<u8>, pos: int) -> Option<(Option<Seq<u8>>, int)> {
    match p_u8(s, pos) {
        Some((t, p)) => if t == 0 {
            Some((None, p))
        } else if t == 1 {
            match p_fixed(s, p, 32) {
                Some((x, q)) => Some((Some(x), q)),
                None => None,
            }
        } else {
            None
        },
        None => None,
    }
}

pub open spec fn opt32_wf(o: Option<Seq<u8>>) -> bool {
    o matches Some(x) ==> x.len() == 32
}

pub proof fn lemma_p_error_code(s: Seq<u8>, pos: int, c: ErrorCode)
    requires
        holds_at(s, pos, enc_error_code(c)),
    ensures
        p_error_code(s, pos) == Some((c, pos + 1)),
{
    lemma_p_u8(s, pos, error_code_tag(c));
}

pub proof fn lemma_p_opt_error_code(s: Seq<u8>, pos: int, o: Option<ErrorCode>)
    requires
        holds_at(s, pos, enc_opt_error_code(o)),
    ensures
        p_opt_error_code(s, pos) == Some((o, pos + enc_opt_error_code(o).len())),
{
    match o {
        None => {
            lemma_p_u8(s, pos, 0u8);
        },
        Some(c) => {
            lemma_holds_at_split(s, pos, seq![1u8], enc_error_code(c));
            lemma_p_u8(s, pos, 1u8);
            lemma_p_error_code(s, pos + 1, c);
        },
    }
}

pub proof fn lemma_p_opt32(s: Seq<u8>, pos: int, o: Option<Seq<u8>>)
    requires
        opt32_wf(o),
        holds_at(s, pos, enc_opt32(o)),
    ensures
        p_opt32(s, pos) == Some((o, pos + enc_opt32(o).len())),
{
    match o {
        None => {
            lemma_p_u8(s, pos, 0u8);
        },
        Some(x) => {
            lemma_holds_at_split(s, pos, seq![1u8], x);
            lemma_p_u8(s, pos, 1u8);
            lemma_p_fixed(s, pos + 1, x);
        },
    }
}

// ---------------------------------------------------------------------------
// Canonical state
// ---------------------------------------------------------------------------

pub open spec fn canonical_state_v_wf(v: CanonicalStateV) -> bool {
    &&& v.state_id.len() == 32
    &&& opt32_wf(v.parent_state_id)
    &&& v.epoch_id.len() == 32
    &&& v.authority_id.len() == 32
    &&& v.state_commitment.len() == 32
}

/// The fields after the parent identifier: epoch, authority, version,
/// tick, commitment, protocol version (124 bytes).
pub open spec fn enc_state_tail(v: CanonicalStateV) -> Seq<u8> {
    v.epoch_id + v.authority_id + enc_u64(v.state_version) + enc_u64(v.simulation_tick)
        + v.state_commitment + enc_version(v.protocol_version)
}

pub open spec fn enc_canonical_state(v: CanonicalStateV) -> Seq<u8> {
    v.state_id + enc_opt32(v.parent_state_id) + enc_state_tail(v)
}

pub open spec fn p_canonical_state(s: Seq<u8>, pos: int) -> Option<(CanonicalStateV, int)> {
    match p_fixed(s, pos, 32) {
        Some((sid, p1)) => match p_opt32(s, p1) {
            Some((par, p2)) => if 0 <= p2 && p2 + 124 <= s.len() {
                Some(
                    (
                        CanonicalStateV {
                            state_id: sid,
                            parent_state_id: par,
                            epoch_id: s.subrange(p2, p2 + 32),
                            authority_id: s.subrange(p2 + 32, p2 + 64),
                            state_version: p_u64(s, p2 + 64).unwrap().0,
                            simulation_tick: p_u64(s, p2 + 72).unwrap().0,
                            state_commitment: s.subrange(p2 + 80, p2 + 112),
                            protocol_version: p_version(s, p2 + 112).unwrap().0,
                        },
                        p2 + 124,
                    ),
                )
            } else {
                None
            },
            None => None,
        },
        None => None,
    }
}

pub proof fn lemma_p_canonical_state(s: Seq<u8>, pos: int, v: CanonicalStateV)
    requires
        canonical_state_v_wf(v),
        holds_at(s, pos, enc_canonical_state(v)),
    ensures
        p_canonical_state(s, pos) == Some((v, pos + enc_canonical_state(v).len())),
{
    lemma_enc_u64_len(v.state_version);
    lemma_enc_u64_len(v.simulation_tick);
    lemma_enc_version_len(v.protocol_version);
    let a = v.state_id;
    let b = enc_opt32(v.parent_state_id);
    let t = enc_state_tail(v);
    lemma_holds_at_split(s, pos, a + b, t);
    lemma_holds_at_split(s, pos, a, b);
    lemma_p_fixed(s, pos, a);
    lemma_p_opt32(s, pos + 32, v.parent_state_id);
    let p2 = pos + 32 + b.len();
    let e1 = v.epoch_id;
    let e2 = e1 + v.authority_id;
    let e3 = e2 + enc_u64(v.state_version);
    let e4 = e3 + enc_u64(v.simulation_tick);
    let e5 = e4 + v.state_commitment;
    assert(t == e5 + enc_version(v.protocol_version));
    lemma_holds_at_split(s, p2, e5, enc_version(v.protocol_version));
    lemma_holds_at_split(s, p2, e4, v.state_commitment);
    lemma_holds_at_split(s, p2, e3, enc_u64(v.simulation_tick));
    lemma_holds_at_split(s, p2, e2, enc_u64(v.state_version));
    lemma_holds_at_split(s, p2, e1, v.authority_id);
    lemma_p_u64(s, p2 + 64, v.state_version);
    lemma_p_u64(s, p2 + 72, v.simulation_tick);
    lemma_p_version(s, p2 + 112, v.protocol_version);
}

// ---------------------------------------------------------------------------
// Handshakes and capabilities
// ---------------------------------------------------------------------------

pub open spec fn enc_handshake_request(v: HandshakeRequestV) -> Seq<u8> {
    enc_version(v.client_version) + v.client_authority
}

pub open spec fn p_handshake_request(s: Seq<u8>, pos: int) -> Option<(HandshakeRequestV, int)> {
    if 0 <= pos && pos + 44 <= s.len() {
        Some(
            (
                HandshakeRequestV {
                    client_version: p_version(s, pos).unwrap().0,
                    client_authority: s.subrange(pos + 12, pos + 44),
                },
                pos + 44,
            ),
        )
    } else {
        None
    }
}

pub open spec fn enc_handshake_response(v: HandshakeResponseV) -> Seq<u8> {
    enc_version(v.server_version) + v.server_authority + enc_bool(v.accepted)
}

pub open spec fn p_handshake_response(s: Seq<u8>, pos: int) -> Option<(HandshakeResponseV, int)> {
    if 0 <= pos && pos + 44 <= s.len() {
        match p_bool(s, pos + 44) {
            Some((b, q)) => Some(
                (
                    HandshakeResponseV {
                        server_version: p_version(s, pos).unwrap().0,
                        server_authority: s.subrange(pos + 12, pos + 44),
                        accepted: b,
                    },
                    q,
                ),
            ),
            None => None,
        }
    } else {
        None
    }
}

/// Whether a capability mask sets only defined bits; a decoder refuses any
/// other.
pub open spec fn capability_bits_valid(bits: u32) -> bool {
    bits & !ALL_CAPABILITY_BITS == 0
}

pub open spec fn p_capability(s: Seq<u8>, pos: int) -> Option<(u32, int)> {
    match p_u32(s, pos) {
        Some((b, p)) => if capability_bits_valid(b) {
            Some((b, p))
        } else {
            None
        },
        None => None,
    }
}

pub proof fn lemma_p_handshake_request(s: Seq<u8>, pos: int, v: HandshakeRequestV)
    requires
        v.client_authority.len() == 32,
        holds_at(s, pos, enc_handshake_request(v)),
    ensures
        p_handshake_request(s, pos) == Some((v, pos + 44)),
{
    lemma_enc_version_len(v.client_version);
    lemma_holds_at_split(s, pos, enc_version(v.client_version), v.client_authority);
    lemma_p_version(s, pos, v.client_version);
}

pub proof fn lemma_p_handshake_response(s: Seq<u8>, pos: int, v: HandshakeResponseV)
    requires
        v.server_authority.len() == 32,
        holds_at(s, pos, enc_handshake_response(v)),
    ensures
        p_handshake_response(s, pos) == Some((v, pos + 45)),
{
    lemma_enc_version_len(v.server_version);
    let a = enc_version(v.server_version);
    lemma_holds_at_split(s, pos, a + v.server_authority, enc_bool(v.accepted));
    lemma_holds_at_split(s, pos, a, v.server_authority);
    lemma_p_version(s, pos, v.server_version);
    lemma_p_bool(s, pos + 44, v.accepted);
}

// ---------------------------------------------------------------------------
// Transition messages
// ---------------------------------------------------------------------------

pub open spec fn transition_message_v_wf(v: TransitionMessageV) -> bool {
    &&& transition_v_wf(v.transition)
    &&& bytes_fit(v.raw_payload)
    &&& v.signature.len() == 64
}

pub open spec fn enc_transition_message(v: TransitionMessageV) -> Seq<u8> {
    enc_transition(v.transition) + enc_u32(v.transition_class) + enc_bytes(v.raw_payload)
        + v.signature
}

pub open spec fn p_transition_message(s: Seq<u8>, pos: int) -> Option<(TransitionMessageV, int)> {
    match p_transition(s, pos) {
        Some((t, p0)) => match p_u32(s, p0) {
            Some((class, p1)) => match p_bytes(s, p1) {
                Some((raw, p2)) => match p_fixed(s, p2, 64) {
                    Some((sig, p3)) => Some(
                        (
                            TransitionMessageV {
                                transition: t,
                                transition_class: class,
                                raw_payload: raw,
                                signature: sig,
                            },
                            p3,
                        ),
                    ),
                    None => None,
                },
                None => None,
            },
            None => None,
        },
        None => None,
    }
}

pub proof fn lemma_p_transition_message(s: Seq<u8>, pos: int, v: TransitionMessageV)
    requires
        transition_message_v_wf(v),
        holds_at(s, pos, enc_transition_message(v)),
    ensures
        p_transition_message(s, pos) == Some((v, pos + enc_transition_message(v).len())),
{
    lemma_enc_transition_len(v.transition);
    lemma_enc_u32_len(v.transition_class);
    lemma_enc_u32_len(v.raw_payload.len() as u32);
    let a = enc_transition(v.transition);
    let c = enc_u32(v.transition_class);
    let b = enc_bytes(v.raw_payload);
    lemma_holds_at_split(s, pos, a + c + b, v.signature);
    lemma_holds_at_split(s, pos, a + c, b);
    lemma_holds_at_split(s, pos, a, c);
    lemma_p_transition(s, pos, v.transition);
    lemma_p_u32(s, pos + 176, v.transition_class);
    lemma_p_bytes(s, pos + 180, v.raw_payload);
    lemma_p_fixed(s, pos + 180 + b.len(), v.signature);
}

// ---------------------------------------------------------------------------
// Delta operations
// ---------------------------------------------------------------------------

pub open spec fn change_type_tag(c: CollectionChangeType) -> u8 {
    match c {
        CollectionChangeType::Insert => 0,
        CollectionChangeType::Remove => 1,
        CollectionChangeType::Update => 2,
        CollectionChangeType::Clear => 3,
    }
}

pub open spec fn p_change_type(s: Seq<u8>, pos: int) -> Option<(CollectionChangeType, int)> {
    match p_u8(s, pos) {
        Some((b, p)) => if b == 0 {
            Some((CollectionChangeType::Insert, p))
        } else if b == 1 {
            Some((CollectionChangeType::Remove, p))
        } else if b == 2 {
            Some((CollectionChangeType::Update, p))
        } else if b == 3 {
            Some((CollectionChangeType::Clear, p))
        } else {
            None
        },
        None => None,
    }
}

pub open spec fn enc_op(o: DeltaOpV) -> Seq<u8> {
    match o {
        DeltaOpV::AddEntity { entity_id, data } => seq![0u8] + enc_u64(entity_id) + enc_bytes(
            data,
        ),
        DeltaOpV::RemoveEntity { entity_id } => seq![1u8] + enc_u64(entity_id),
        DeltaOpV::UpdateField { entity_id, component_id, field_id, data } => seq![2u8] + enc_u64(
            entity_id,
        ) + enc_u32(component_id) + enc_u32(field_id) + enc_bytes(data),
        DeltaOpV::CollectionChange { entity_id, component_id, collection_id, change_type, data } =>
            seq![3u8] + enc_u64(entity_id) + enc_u32(component_id) + enc_u32(collection_id) + seq![
            change_type_tag(change_type)] + enc_bytes(data),
    }
}

pub open spec fn op_v_wf(o: DeltaOpV) -> bool {
    match o {
        DeltaOpV::AddEntity { data, .. } => bytes_fit(data),
        DeltaOpV::RemoveEntity { .. } => true,
        DeltaOpV::UpdateField { data, .. } => bytes_fit(data),
        DeltaOpV::CollectionChange { data, .. } => bytes_fit(data),
    }
}

pub open spec fn p_op(s: Seq<u8>, pos: int) -> Option<(DeltaOpV, int)> {
    match p_u8(s, pos) {
        Some((t, p)) => if t == 0 {
            match p_u64(s, p) {
                Some((e, p1)) => match p_bytes(s, p1) {
                    Some((d, p2)) => Some((DeltaOpV::AddEntity { entity_id: e, data: d }, p2)),
                    None => None,
                },
                None => None,
            }
        } else if t == 1 {
            match p_u64(s, p) {
                Some((e, p1)) => Some((DeltaOpV::RemoveEntity { entity_id: e }, p1)),
                None => None,
            }
        } else if t == 2 {
            if p + 16 <= s.len() {
                match p_bytes(s, p + 16) {
                    Some((d, q)) => Some(
                        (
                            DeltaOpV::UpdateField {
                                entity_id: p_u64(s, p).unwrap().0,
                                component_id: p_u32(s, p + 8).unwrap().0,
                                field_id: p_u32(s, p + 12).unwrap().0,
                                data: d,
                            },
                            q,
                        ),
                    ),
                    None => None,
                }
            } else {
                None
            }
        } else if t == 3 {
            if p + 16 <= s.len() {
                match p_change_type(s, p + 16) {
                    Some((c, p1)) => match p_bytes(s, p1) {
                        Some((d, q)) => Some(
                            (
                                DeltaOpV::CollectionChange {
                                    entity_id: p_u64(s, p).unwrap().0,
                                    component_id: p_u32(s, p + 8).unwrap().0,
                                    collection_id: p_u32(s, p + 12).unwrap().0,
                                    change_type: c,
                                    data: d,
                                },
                                q,
                            ),
                        ),
                        None => None,
                    },
                    None => None,
                }
            } else {
                None
            }
        } else {
            None
        },
        None => None,
    }
}

pub proof fn lemma_p_op(s: Seq<u8>, pos: int, o: DeltaOpV)
    requires
        op_v_wf(o),
        holds_at(s, pos, enc_op(o)),
    ensures
        p_op(s, pos) == Some((o, pos + enc_op(o).len())),
{
    match o {
        DeltaOpV::AddEntity { entity_id, data } => {
            lemma_enc_u64_len(entity_id);
            lemma_enc_u32_len(data.len() as u32);
            let a = seq![0u8];
            let b = enc_u64(entity_id);
            lemma_holds_at_split(s, pos, a + b, enc_bytes(data));
            lemma_holds_at_split(s, pos, a, b);
            lemma_p_u8(s, pos, 0u8);
            lemma_p_u64(s, pos + 1, entity_id);
            lemma_p_bytes(s, pos + 9, data);
        },
        DeltaOpV::RemoveEntity { entity_id } => {
            lemma_enc_u64_len(entity_id);
            lemma_holds_at_split(s, pos, seq![1u8], enc_u64(entity_id));
            lemma_p_u8(s, pos, 1u8);
            lemma_p_u64(s, pos + 1, entity_id);
        },
        DeltaOpV::UpdateField { entity_id, component_id, field_id, data } => {
            lemma_enc_u64_len(entity_id);
            lemma_enc_u32_len(component_id);
            lemma_enc_u32_len(field_id);
            lemma_enc_u32_len(data.len() as u32);
            let a = seq![2u8];
            let b = a + enc_u64(entity_id);
            let c = b + enc_u32(component_id);
            let d = c + enc_u32(field_id);
            lemma_holds_at_split(s, pos, d, enc_bytes(data));
            lemma_holds_at_split(s, pos, c, enc_u32(field_id));
            lemma_holds_at_split(s, pos, b, enc_u32(component_id));
            lemma_holds_at_split(s, pos, a, enc_u64(entity_id));
            lemma_p_u8(s, pos, 2u8);
            lemma_p_u64(s, pos + 1, entity_id);
            lemma_p_u32(s, pos + 9, component_id);
            lemma_p_u32(s, pos + 13, field_id);
            lemma_p_bytes(s, pos + 17, data);
        },
        DeltaOpV::CollectionChange { entity_id, component_id, collection_id, change_type, data } => {
            lemma_enc_u64_len(entity_id);
            lemma_enc_u32_len(component_id);
            lemma_enc_u32_len(collection_id);
            lemma_enc_u32_len(data.len() as u32);
            let a = seq![3u8];
            let b = a + enc_u64(entity_id);
            let c = b + enc_u32(component_id);
            let d = c + enc_u32(collection_id);
            let e = d + seq![change_type_tag(change_type)];
            lemma_holds_at_split(s, pos, e, enc_bytes(data));
            lemma_holds_at_split(s, pos, d, seq![change_type_tag(change_type)]);
            lemma_holds_at_split(s, pos, c, enc_u32(collection_id));
            lemma_holds_at_split(s, pos, b, enc_u32(component_id));
            lemma_holds_at_split(s, pos, a, enc_u64(entity_id));
            lemma_p_u8(s, pos, 3u8);
            lemma_p_u64(s, pos + 1, entity_id);
            lemma_p_u32(s, pos + 9, component_id);
            lemma_p_u32(s, pos + 13, collection_id);
            lemma_p_u8(s, pos + 17, change_type_tag(change_type));
            lemma_p_bytes(s, pos + 18, data);
        },
    }
}

/// Operations encoded one after another.
pub open spec fn enc_ops(ops: Seq<DeltaOpV>) -> Seq<u8>
    decreases ops.len(),
{
    if ops.len() == 0 {
        Seq::empty()
    } else {
        enc_ops(ops.drop_last()) + enc_op(ops.last())
    }
}

/// `n` operations parsed one after another from `pos`, and the position
/// after them.
pub open spec fn p_ops(s: Seq<u8>, pos: int, n: nat) -> Option<(Seq<DeltaOpV>, int)>
    decreases n,
{
    if n == 0 {
        Some((Seq::empty(), pos))
    } else {
        match p_op(s, pos) {
            Some((o, q)) => match p_ops(s, q, (n - 1) as nat) {
                Some((rest, e)) => Some((seq![o] + rest, e)),
                None => None,
            },
            None => None,
        }
    }
}

pub proof fn lemma_enc_ops_first(ops: Seq<DeltaOpV>)
    requires
        ops.len() > 0,
    ensures
        enc_ops(ops) == enc_op(ops[0]) + enc_ops(ops.drop_first()),
    decreases ops.len(),
{
    if ops.len() == 1 {
        assert(ops.drop_last() =~= Seq::<DeltaOpV>::empty());
        assert(ops.drop_first() =~= Seq::<DeltaOpV>::empty());
        assert(enc_ops(ops) =~= enc_op(ops[0]) + enc_ops(ops.drop_first()));
    } else {
        let d = ops.drop_last();
        lemma_enc_ops_first(d);
        assert(d[0] == ops[0]);
        assert(d.drop_first() =~= ops.drop_first().drop_last());
        assert(ops.drop_first().last() == ops.last());
        assert(enc_ops(ops) =~= enc_op(ops[0]) + enc_ops(ops.drop_first()));
    }
}

pub proof fn lemma_p_ops(s: Seq<u8>, pos: int, ops: Seq<DeltaOpV>)
    requires
        forall|i: int| 0 <= i < ops.len() ==> op_v_wf(#[trigger] ops[i]),
        holds_at(s, pos, enc_ops(ops)),
    ensures
        p_ops(s, pos, ops.len()) == Some((ops, pos + enc_ops(ops).len())),
    decreases ops.len(),
{
    if ops.len() > 0 {
        let o = ops[0];
        let rest = ops.drop_first();
        lemma_enc_ops_first(ops);
        lemma_holds_at_split(s, pos, enc_op(o), enc_ops(rest));
        lemma_p_op(s, pos, o);
        assert forall|i: int| 0 <= i < rest.len() implies op_v_wf(#[trigger] rest[i]) by {
            assert(rest[i] == ops[i + 1]);
        }
        lemma_p_ops(s, pos + enc_op(o).len(), rest);
        assert(seq![o] + rest =~= ops);
    }
}

pub open spec fn delta_message_v_wf(v: DeltaMessageV) -> bool {
    &&& v.epoch_id.len() == 32
    &&& v.ops.len() <= u32::MAX
    &&& forall|i: int| 0 <= i < v.ops.len() ==> op_v_wf(#[trigger] v.ops[i])
}

pub open spec fn enc_delta_message(v: DeltaMessageV) -> Seq<u8> {
    v.epoch_id + enc_u32(v.ops.len() as u32) + enc_ops(v.ops)
}

pub open spec fn p_delta_message(s: Seq<u8>, pos: int) -> Option<(DeltaMessageV, int)> {
    match p_fixed(s, pos, 32) {
        Some((e, p1)) => match p_u32(s, p1) {
            Some((n, p2)) => match p_ops(s, p2, n as nat) {
                Some((ops, p3)) => Some((DeltaMessageV { epoch_id: e, ops }, p3)),
                None => None,
            },
            None => None,
        },
        None => None,
    }
}

pub proof fn lemma_p_delta_message(s: Seq<u8>, pos: int, v: DeltaMessageV)
    requires
        delta_message_v_wf(v),
        holds_at(s, pos, enc_delta_message(v)),
    ensures
        p_delta_message(s, pos) == Some((v, pos + enc_delta_message(v).len())),
{
    lemma_enc_u32_len(v.ops.len() as u32);
    let a = v.epoch_id;
    let b = enc_u32(v.ops.len() as u32);
    lemma_holds_at_split(s, pos, a + b, enc_ops(v.ops));
    lemma_holds_at_split(s, pos, a, b);
    lemma_p_fixed(s, pos, a);
    lemma_p_u32(s, pos + 32, v.ops.len() as u32);
    lemma_p_ops(s, pos + 36, v.ops);
}

// ---------------------------------------------------------------------------
// Verification results and replay metadata
// ---------------------------------------------------------------------------

pub open spec fn enc_verification(m: VerificationMessage) -> Seq<u8> {
    enc_u64(m.transition_id) + enc_bool(m.is_valid) + enc_opt_error_code(m.error_code)
}

pub open spec fn p_verification(s: Seq<u8>, pos: int) -> Option<(VerificationMessage, int)> {
    match p_u64(s, pos) {
        Some((id, p1)) => match p_bool(s, p1) {
            Some((b, p2)) => match p_opt_error_code(s, p2) {
                Some((c, p3)) => Some(
                    (VerificationMessage { transition_id: id, is_valid: b, error_code: c }, p3),
                ),
                None => None,
            },
            None => None,
        },
        None => None,
    }
}

pub proof fn lemma_p_verification(s: Seq<u8>, pos: int, m: VerificationMessage)
    requires
        holds_at(s, pos, enc_verification(m)),
    ensures
        p_verification(s, pos) == Some((m, pos + enc_verification(m).len())),
{
    lemma_enc_u64_len(m.transition_id);
    let a = enc_u64(m.transition_id);
    let b = enc_bool(m.is_valid);
    lemma_holds_at_split(s, pos, a + b, enc_opt_error_code(m.error_code));
    lemma_holds_at_split(s, pos, a, b);
    lemma_p_u64(s, pos, m.transition_id);
    lemma_p_bool(s, pos + 8, m.is_valid);
    lemma_p_opt_error_code(s, pos + 9, m.error_code);
}

pub open spec fn replay_metadata_v_wf(v: ReplayMetadataV) -> bool {
    &&& v.session_id.len() == 32
    &&& v.start_epoch.len() == 32
    &&& opt32_wf(v.end_epoch)
}

pub open spec fn enc_replay_metadata(v: ReplayMetadataV) -> Seq<u8> {
    v.session_id + v.start_epoch + enc_opt32(v.end_epoch) + enc_u32(v.tick_rate)
}

pub open spec fn p_replay_metadata(s: Seq<u8>, pos: int) -> Option<(ReplayMetadataV, int)> {
    if 0 <= pos && pos + 64 <= s.len() {
        match p_opt32(s, pos + 64) {
            Some((e, p1)) => match p_u32(s, p1) {
                Some((t, p2)) => Some(
                    (
                        ReplayMetadataV {
                            session_id: s.subrange(pos, pos + 32),
                            start_epoch: s.subrange(pos + 32, pos + 64),
                            end_epoch: e,
                            tick_rate: t,
                        },
                        p2,
                    ),
                ),
                None => None,
            },
            None => None,
        }
    } else {
        None
    }
}

pub proof fn lemma_p_replay_metadata(s: Seq<u8>, pos: int, v: ReplayMetadataV)
    requires
        replay_metadata_v_wf(v),
        holds_at(s, pos, enc_replay_metadata(v)),
    ensures
        p_replay_metadata(s, pos) == Some((v, pos + enc_replay_metadata(v).len())),
{
    lemma_enc_u32_len(v.tick_rate);
    let a = v.session_id;
    let b = a + v.start_epoch;
    let c = b + enc_opt32(v.end_epoch);
    lemma_holds_at_split(s, pos, c, enc_u32(v.tick_rate));
    lemma_holds_at_split(s, pos, b, enc_opt32(v.end_epoch));
    lemma_holds_at_split(s, pos, a, v.start_epoch);
    lemma_p_opt32(s, pos + 64, v.end_epoch);
    lemma_p_u32(s, pos + 64 + enc_opt32(v.end_epoch).len(), v.tick_rate);
}

// ---------------------------------------------------------------------------
// Payloads and messages
// ---------------------------------------------------------------------------

pub open spec fn payload_tag(p: PayloadV) -> u8 {
    match p {
        PayloadV::HandshakeRequest(_) => 0,
        PayloadV::HandshakeResponse(_) => 1,
        PayloadV::CapabilityNegotiation(_) => 2,
        PayloadV::State(_) => 3,
        PayloadV::Transition(_) => 4,
        PayloadV::Delta(_) => 5,
        PayloadV::Verification(_) => 6,
        PayloadV::Error(_) => 7,
        PayloadV::ReplayMetadata(_) => 8,
    }
}

/// The encoding of the payload's fields, after its variant index.
pub open spec fn enc_payload_body(p: PayloadV) -> Seq<u8> {
    match p {
        PayloadV::HandshakeRequest(v) => enc_handshake_request(v),
        PayloadV::HandshakeResponse(v) => enc_handshake_response(v),
        PayloadV::CapabilityNegotiation(bits) => enc_u32(bits),
        PayloadV::State(v) => enc_canonical_state(v),
        PayloadV::Transition(v) => enc_transition_message(v),
        PayloadV::Delta(v) => enc_delta_message(v),
        PayloadV::Verification(m) => enc_verification(m),
        PayloadV::Error(c) => enc_error_code(c),
        PayloadV::ReplayMetadata(v) => enc_replay_metadata(v),
    }
}

pub open spec fn enc_payload(p: PayloadV) -> Seq<u8> {
    seq![payload_tag(p)] + enc_payload_body(p)
}

/// Whether a payload can be encoded: every length fits its `u32` prefix.
pub open spec fn payload_fits(p: PayloadV) -> bool {
    match p {
        PayloadV::Transition(v) => bytes_fit(v.raw_payload),
        PayloadV::Delta(v) => v.ops.len() <= u32::MAX && forall|i: int|
            0 <= i < v.ops.len() ==> op_v_wf(#[trigger] v.ops[i]),
        _ => true,
    }
}

/// Whether a payload is well formed: its identifiers have their sizes, its
/// lengths fit, and a capability mask sets only defined bits.
pub open spec fn payload_v_wf(p: PayloadV) -> bool {
    match p {
        PayloadV::HandshakeRequest(v) => v.client_authority.len() == 32,
        PayloadV::HandshakeResponse(v) => v.server_authority.len() == 32,
        PayloadV::CapabilityNegotiation(bits) => capability_bits_valid(bits),
        PayloadV::State(v) => canonical_state_v_wf(v),
        PayloadV::Transition(v) => transition_message_v_wf(v),
        PayloadV::Delta(v) => delta_message_v_wf(v),
        PayloadV::Verification(_) => true,
        PayloadV::Error(_) => true,
        PayloadV::ReplayMetadata(v) => replay_metadata_v_wf(v),
    }
}

pub open spec fn p_payload_body(s: Seq<u8>, t: u8, p: int) -> Option<(PayloadV, int)> {
    if t == 0 {
        match p_handshake_request(s, p) {
            Some((v, q)) => Some((PayloadV::HandshakeRequest(v), q)),
            None => None,
        }
    } else if t == 1 {
        match p_handshake_response(s, p) {
            Some((v, q)) => Some((PayloadV::HandshakeResponse(v), q)),
            None => None,
        }
    } else if t == 2 {
        match p_capability(s, p) {
            Some((v, q)) => Some((PayloadV::CapabilityNegotiation(v), q)),
            None => None,
        }
    } else if t == 3 {
        match p_canonical_state(s, p) {
            Some((v, q)) => Some((PayloadV::State(v), q)),
            None => None,
        }
    } else if t == 4 {
        match p_transition_message(s, p) {
            Some((v, q)) => Some((PayloadV::Transition(v), q)),
            None => None,
        }
    } else if t == 5 {
        match p_delta_message(s, p) {
            Some((v, q)) => Some((PayloadV::Delta(v), q)),
            None => None,
        }
    } else if t == 6 {
        match p_verification(s, p) {
            Some((v, q)) => Some((PayloadV::Verification(v), q)),
            None => None,
        }
    } else if t == 7 {
        match p_error_code(s, p) {
            Some((v, q)) => Some((PayloadV::Error(v), q)),
            None => None,
        }
    } else if t == 8 {
        match p_replay_metadata(s, p) {
            Some((v, q)) => Some((PayloadV::ReplayMetadata(v), q)),
            None => None,
        }
    } else {
        None
    }
}

pub open spec fn p_payload(s: Seq<u8>, pos: int) -> Option<(PayloadV, int)> {
    match p_u8(s, pos) {
        Some((t, p)) => p_payload_body(s, t, p),
        None => None,
    }
}

pub open spec fn enc_message(m: MessageV) -> Seq<u8> {
    enc_version(m.version) + enc_payload(m.payload)
}

pub open spec fn p_message(s: Seq<u8>, pos: int) -> Option<(MessageV, int)> {
    match p_version(s, pos) {
        Some((v, p)) => match p_payload(s, p) {
            Some((pl, q)) => Some((MessageV { version: v, payload: pl }, q)),
            None => None,
        },
        None => None,
    }
}

/// The message that `s` encodes, when a message occupies the whole of it.
pub open spec fn decode_message(s: Seq<u8>) -> Option<MessageV> {
    match p_message(s, 0) {
        Some((m, q)) => if q == s.len() {
            Some(m)
        } else {
            None
        },
        None => None,
    }
}

pub proof fn lemma_p_payload(s: Seq<u8>, pos: int, p: PayloadV)
    requires
        payload_v_wf(p),
        holds_at(s, pos, enc_payload(p)),
    ensures
        p_payload(s, pos) == Some((p, pos + enc_payload(p).len())),
{
    let b = enc_payload_body(p);
    lemma_holds_at_split(s, pos, seq![payload_tag(p)], b);
    lemma_p_u8(s, pos, payload_tag(p));
    let q = pos + 1;
    match p {
        PayloadV::HandshakeRequest(v) => {
            lemma_enc_version_len(v.client_version);
            lemma_p_handshake_request(s, q, v);
        },
        PayloadV::HandshakeResponse(v) => {
            lemma_enc_version_len(v.server_version);
            lemma_p_handshake_response(s, q, v);
        },
        PayloadV::CapabilityNegotiation(bits) => {
            lemma_enc_u32_len(bits);
            lemma_p_u32(s, q, bits);
        },
        PayloadV::State(v) => {
            lemma_p_canonical_state(s, q, v);
        },
        PayloadV::Transition(v) => {
            lemma_p_transition_message(s, q, v);
        },
        PayloadV::Delta(v) => {
            lemma_p_delta_message(s, q, v);
        },
        PayloadV::Verification(m) => {
            lemma_p_verification(s, q, m);
        },
        PayloadV::Error(c) => {
            lemma_p_error_code(s, q, c);
        },
        PayloadV::ReplayMetadata(v) => {
            lemma_p_replay_metadata(s, q, v);
        },
    }
}

pub proof fn lemma_p_message(s: Seq<u8>, pos: int, m: MessageV)
    requires
        payload_v_wf(m.payload),
        holds_at(s, pos, enc_message(m)),
    ensures
        p_message(s, pos) == Some((m, pos + enc_message(m).len())),
{
    lemma_enc_version_len(m.version);
    lemma_holds_at_split(s, pos, enc_version(m.version), enc_payload(m.payload));
    lemma_p_version(s, pos, m.version);
    lemma_p_payload(s, pos + 12, m.payload);
}

/// Decoding the encoding of a well-formed message gives the message back.
pub proof fn lemma_message_roundtrip(m: MessageV)
    requires
        payload_v_wf(m.payload),
    ensures
        decode_message(enc_message(m)) == Some(m),
{
    lemma_holds_at_whole(enc_message(m));
    lemma_p_message(enc_message(m), 0, m);
}


// ---------------------------------------------------------------------------
// Writers and readers
// ---------------------------------------------------------------------------

pub fn write_error_code(out: &mut Vec<u8>, c: ErrorCode)
    ensures
        final(out)@ == old(out)@ + enc_error_code(c),
{
    let b: u8 = match c {
        ErrorCode::Unknown => 0,
        ErrorCode::IncompatibleVersion => 1,
        ErrorCode::AuthenticationFailed => 2,
        ErrorCode::MalformedMessage => 3,
        ErrorCode::StaleTransition => 4,
        ErrorCode::InsufficientCapability => 5,
        ErrorCode::VerificationFailed => 6,
    };
    write_u8(out, b);
}

pub fn read_error_code(buf: &[u8], pos: usize) -> (r: Option<(ErrorCode, usize)>)
    ensures
        read_matches(r, p_error_code(buf@, pos as int)),
{
    match read_u8(buf, pos) {
        Some((b, p)) => {
            let c = if b == 0 {
                ErrorCode::Unknown
            } else if b == 1 {
                ErrorCode::IncompatibleVersion
            } else if b == 2 {
                ErrorCode::AuthenticationFailed
            } else if b == 3 {
                ErrorCode::MalformedMessage
            } else if b == 4 {
                ErrorCode::StaleTransition
            } else if b == 5 {
                ErrorCode::InsufficientCapability
            } else if b == 6 {
                ErrorCode::VerificationFailed
            } else {
                return None;
            };
            Some((c, p))
        },
        None => None,
    }
}

pub fn write_opt_error_code(out: &mut Vec<u8>, o: Option<ErrorCode>)
    ensures
        final(out)@ == old(out)@ + enc_opt_error_code(o),
{
    match o {
        None => write_u8(out, 0),
        Some(c) => {
            write_u8(out, 1);
            write_error_code(out, c);
            assert(out@ =~= old(out)@ + enc_opt_error_code(o));
        },
    }
}

pub fn read_opt_error_code(buf: &[u8], pos: usize) -> (r: Option<(Option<ErrorCode>, usize)>)
    ensures
        read_matches(r, p_opt_error_code(buf@, pos as int)),
{
    match read_u8(buf, pos) {
        Some((t, p)) => if t == 0 {
            Some((None, p))
        } else if t == 1 {
            match read_error_code(buf, p) {
                Some((c, q)) => Some((Some(c), q)),
                None => None,
            }
        } else {
            None
        },
        None => None,
    }
}

/// The content of an optional 32-byte array.
pub open spec fn opt_arr_view(o: Option<[u8; 32]>) -> Option<Seq<u8>> {
    match o {
        Some(a) => Some(a@),
        None => None,
    }
}

pub fn write_opt32(out: &mut Vec<u8>, o: Option<[u8; 32]>)
    ensures
        final(out)@ == old(out)@ + enc_opt32(opt_arr_view(o)),
{
    match o {
        None => write_u8(out, 0),
        Some(a) => {
            write_u8(out, 1);
            write_raw(out, &a);
            assert(out@ =~= old(out)@ + enc_opt32(opt_arr_view(o)));
        },
    }
}

pub fn read_opt32(buf: &[u8], pos: usize) -> (r: Option<(Option<[u8; 32]>, usize)>)
    ensures
        match r {
            Some((o, q)) => p_opt32(buf@, pos as int) == Some((opt_arr_view(o), q as int)),
            None => p_opt32(buf@, pos as int) is None,
        },
{
    match read_u8(buf, pos) {
        Some((t, p)) => if t == 0 {
            Some((None, p))
        } else if t == 1 {
            match read_arr32(buf, p) {
                Some((a, q)) => Some((Some(a), q)),
                None => None,
            }
        } else {
            None
        },
        None => None,
    }
}

impl CanonicalState {
    /// Appends the encoding of the state envelope.
    pub fn write_to(&self, out: &mut Vec<u8>)
        ensures
            final(out)@ == old(out)@ + enc_canonical_state(self@),
    {
        write_raw(out, &self.state_id.0);
        let parent = match self.parent_state_id {
            Some(p) => Some(p.0),
            None => None,
        };
        write_opt32(out, parent);
        write_raw(out, &self.epoch_id.0);
        write_raw(out, &self.authority_id.0);
        write_u64(out, self.state_version);
        write_u64(out, self.simulation_tick);
        write_raw(out, &self.state_commitment.0);
        self.protocol_version.write_to(out);
        assert(opt_arr_view(parent) == self@.parent_state_id);
        assert(out@ =~= old(out)@ + enc_canonical_state(self@));
    }

    /// Reads a state envelope at `pos`.
    pub fn read_from(buf: &[u8], pos: usize) -> (r: Option<(CanonicalState, usize)>)
        ensures
            match r {
                Some((v, q)) => p_canonical_state(buf@, pos as int) == Some((v@, q as int)),
                None => p_canonical_state(buf@, pos as int) is None,
            },
    {
        let (state_id, p1) = match read_arr32(buf, pos) {
            Some(x) => x,
            None => return None,
        };
        let (parent, p2) = match read_opt32(buf, p1) {
            Some(x) => x,
            None => return None,
        };
        if buf.len() - p2 < 124 {
            return None;
        }
        let (epoch_id, p3) = match read_arr32(buf, p2) {
            Some(x) => x,
            None => return None,
        };
        let (authority_id, p4) = match read_arr32(buf, p3) {
            Some(x) => x,
            None => return None,
        };
        let (state_version, p5) = match read_u64(buf, p4) {
            Some(x) => x,
            None => return None,
        };
        let (simulation_tick, p6) = match read_u64(buf, p5) {
            Some(x) => x,
            None => return None,
        };
        let (state_commitment, p7) = match read_arr32(buf, p6) {
            Some(x) => x,
            None => return None,
        };
        let (protocol_version, p8) = match ProtocolVersion::read_from(buf, p7) {
            Some(x) => x,
            None => return None,
        };
        let parent_state_id = match parent {
            Some(a) => Some(ParentStateId(a)),
            None => None,
        };
        let v = CanonicalState {
            state_id: StateId(state_id),
            parent_state_id,
            epoch_id: EpochId(epoch_id),
            authority_id: AuthorityId(authority_id),
            state_version,
            simulation_tick,
            state_commitment: StateCommitment(state_commitment),
            protocol_version,
        };
        assert(v@.parent_state_id == opt_arr_view(parent));
        Some((v, p8))
    }
}

impl HandshakeRequest {
    pub fn write_to(&self, out: &mut Vec<u8>)
        ensures
            final(out)@ == old(out)@ + enc_handshake_request(self@),
    {
        self.client_version.write_to(out);
        write_raw(out, &self.client_authority.0);
        assert(out@ =~= old(out)@ + enc_handshake_request(self@));
    }

    pub fn read_from(buf: &[u8], pos: usize) -> (r: Option<(HandshakeRequest, usize)>)
        ensures
            match r {
                Some((v, q)) => p_handshake_request(buf@, pos as int) == Some((v@, q as int)),
                None => p_handshake_request(buf@, pos as int) is None,
            },
    {
        if pos > buf.len() || buf.len() - pos < 44 {
            return None;
        }
        let (client_version, p1) = match ProtocolVersion::read_from(buf, pos) {
            Some(x) => x,
            None => return None,
        };
        let (a, p2) = match read_arr32(buf, p1) {
            Some(x) => x,
            None => return None,
        };
        Some((HandshakeRequest { client_version, client_authority: AuthorityId(a) }, p2))
    }
}

impl HandshakeResponse {
    pub fn write_to(&self, out: &mut Vec<u8>)
        ensures
            final(out)@ == old(out)@ + enc_handshake_response(self@),
    {
        self.server_version.write_to(out);
        write_raw(out, &self.server_authority.0);
        write_bool(out, self.accepted);
        assert(out@ =~= old(out)@ + enc_handshake_response(self@));
    }

    pub fn read_from(buf: &[u8], pos: usize) -> (r: Option<(HandshakeResponse, usize)>)
        ensures
            match r {
                Some((v, q)) => p_handshake_response(buf@, pos as int) == Some((v@, q as int)),
                None => p_handshake_response(buf@, pos as int) is None,
            },
    {
        if pos > buf.len() || buf.len() - pos < 44 {
            return None;
        }
        let (server_version, p1) = match ProtocolVersion::read_from(buf, pos) {
            Some(x) => x,
            None => return None,
        };
        let (a, p2) = match read_arr32(buf, p1) {
            Some(x) => x,
            None => return None,
        };
        let (accepted, p3) = match read_bool(buf, p2) {
            Some(x) => x,
            None => return None,
        };
        Some((HandshakeResponse { server_version, server_authority: AuthorityId(a), accepted }, p3))
    }
}

impl TransitionMessage {
    pub fn write_to(&self, out: &mut Vec<u8>)
        requires
            bytes_fit(self.raw_payload@),
        ensures
            final(out)@ == old(out)@ + enc_transition_message(self@),
    {
        self.transition.write_to(out);
        write_u32(out, self.transition_class);
        write_bytes(out, self.raw_payload.as_slice());
        write_raw(out, &self.signature);
        assert(out@ =~= old(out)@ + enc_transition_message(self@));
    }

    pub fn read_from(buf: &[u8], pos: usize) -> (r: Option<(TransitionMessage, usize)>)
        ensures
            match r {
                Some((v, q)) => p_transition_message(buf@, pos as int) == Some((v@, q as int)),
                None => p_transition_message(buf@, pos as int) is None,
            },
    {
        let (transition, p0) = match Transition::read_from(buf, pos) {
            Some(x) => x,
            None => return None,
        };
        let (transition_class, p1) = match read_u32(buf, p0) {
            Some(x) => x,
            None => return None,
        };
        let (raw_payload, p2) = match read_bytes(buf, p1) {
            Some(x) => x,
            None => return None,
        };
        let (signature, p3) = match read_arr64(buf, p2) {
            Some(x) => x,
            None => return None,
        };
        Some((TransitionMessage { transition, transition_class, raw_payload, signature }, p3))
    }
}

impl DeltaOp {
    /// Whether every byte string of the operation fits its `u32` prefix.
    pub fn fits(&self) -> (r: bool)
        ensures
            r == op_v_wf(self@),
    {
        match self {
            DeltaOp::AddEntity { data, .. } => data.len() <= 0xFFFF_FFFF,
            DeltaOp::RemoveEntity { .. } => true,
            DeltaOp::UpdateField { data, .. } => data.len() <= 0xFFFF_FFFF,
            DeltaOp::CollectionChange { data, .. } => data.len() <= 0xFFFF_FFFF,
        }
    }

    pub fn write_to(&self, out: &mut Vec<u8>)
        requires
            op_v_wf(self@),
        ensures
            final(out)@ == old(out)@ + enc_op(self@),
    {
        match self {
            DeltaOp::AddEntity { entity_id, data } => {
                write_u8(out, 0);
                write_u64(out, *entity_id);
                write_bytes(out, data.as_slice());
            },
            DeltaOp::RemoveEntity { entity_id } => {
                write_u8(out, 1);
                write_u64(out, *entity_id);
            },
            DeltaOp::UpdateField { entity_id, component_id, field_id, data } => {
                write_u8(out, 2);
                write_u64(out, *entity_id);
                write_u32(out, *component_id);
                write_u32(out, *field_id);
                write_bytes(out, data.as_slice());
            },
            DeltaOp::CollectionChange {
                entity_id,
                component_id,
                collection_id,
                change_type,
                data,
            } => {
                write_u8(out, 3);
                write_u64(out, *entity_id);
                write_u32(out, *component_id);
                write_u32(out, *collection_id);
                let t: u8 = match change_type {
                    CollectionChangeType::Insert => 0,
                    CollectionChangeType::Remove => 1,
                    CollectionChangeType::Update => 2,
                    CollectionChangeType::Clear => 3,
                };
                write_u8(out, t);
                write_bytes(out, data.as_slice());
            },
        }
        assert(out@ =~= old(out)@ + enc_op(self@));
    }

    pub fn read_from(buf: &[u8], pos: usize) -> (r: Option<(DeltaOp, usize)>)
        ensures
            match r {
                Some((v, q)) => p_op(buf@, pos as int) == Some((v@, q as int)),
                None => p_op(buf@, pos as int) is None,
            },
    {
        let (t, p) = match read_u8(buf, pos) {
            Some(x) => x,
            None => return None,
        };
        if t == 0 {
            let (entity_id, p1) = match read_u64(buf, p) {
                Some(x) => x,
                None => return None,
            };
            let (data, p2) = match read_bytes(buf, p1) {
                Some(x) => x,
                None => return None,
            };
            Some((DeltaOp::AddEntity { entity_id, data }, p2))
        } else if t == 1 {
            let (entity_id, p1) = match read_u64(buf, p) {
                Some(x) => x,
                None => return None,
            };
            Some((DeltaOp::RemoveEntity { entity_id }, p1))
        } else if t == 2 || t == 3 {
            if buf.len() - p < 16 {
                return None;
            }
            let (entity_id, p1) = match read_u64(buf, p) {
                Some(x) => x,
                None => return None,
            };
            let (component_id, p2) = match read_u32(buf, p1) {
                Some(x) => x,
                None => return None,
            };
            let (second_id, p3) = match read_u32(buf, p2) {
                Some(x) => x,
                None => return None,
            };
            if t == 2 {
                let (data, p4) = match read_bytes(buf, p3) {
                    Some(x) => x,
                    None => return None,
                };
                Some((DeltaOp::UpdateField { entity_id, component_id, field_id: second_id, data }, p4))
            } else {
                let (c, p4) = match read_u8(buf, p3) {
                    Some(x) => x,
                    None => return None,
                };
                let change_type = if c == 0 {
                    CollectionChangeType::Insert
                } else if c == 1 {
                    CollectionChangeType::Remove
                } else if c == 2 {
                    CollectionChangeType::Update
                } else if c == 3 {
                    CollectionChangeType::Clear
                } else {
                    return None;
                };
                let (data, p5) = match read_bytes(buf, p4) {
                    Some(x) => x,
                    None => return None,
                };
                Some(
                    (
                        DeltaOp::CollectionChange {
                            entity_id,
                            component_id,
                            collection_id: second_id,
                            change_type,
                            data,
                        },
                        p5,
                    ),
                )
            }
        } else {
            None
        }
    }
}

/// Whether every operation fits its encoding.
pub fn ops_fit(ops: &Vec<DeltaOp>) -> (r: bool)
    ensures
        r == forall|i: int| 0 <= i < ops@.len() ==> op_v_wf(#[trigger] ops_view(ops@)[i]),
{
    let mut i: usize = 0;
    while i < ops.len()
        invariant
            i <= ops@.len(),
            forall|j: int| 0 <= j < i ==> op_v_wf(#[trigger] ops_view(ops@)[j]),
        decreases ops@.len() - i,
    {
        if !ops[i].fits() {
            assert(!op_v_wf(ops_view(ops@)[i as int]));
            return false;
        }
        i = i + 1;
    }
    true
}

pub fn write_ops(out: &mut Vec<u8>, ops: &Vec<DeltaOp>)
    requires
        forall|i: int| 0 <= i < ops@.len() ==> op_v_wf(#[trigger] ops_view(ops@)[i]),
    ensures
        final(out)@ == old(out)@ + enc_ops(ops_view(ops@)),
{
    let ghost start = out@;
    let mut i: usize = 0;
    while i < ops.len()
        invariant
            i <= ops@.len(),
            forall|j: int| 0 <= j < ops@.len() ==> op_v_wf(#[trigger] ops_view(ops@)[j]),
            out@ == start + enc_ops(ops_view(ops@.take(i as int))),
        decreases ops@.len() - i,
    {
        assert(op_v_wf(ops_view(ops@)[i as int]));
        ops[i].write_to(out);
        proof {
            let t = ops_view(ops@.take(i + 1));
            assert(t.drop_last() =~= ops_view(ops@.take(i as int)));
            assert(t.last() == ops@[i as int]@);
        }
        assert(out@ =~= start + enc_ops(ops_view(ops@.take(i + 1))));
        i = i + 1;
    }
    assert(ops@.take(ops@.len() as int) =~= ops@);
}

/// The chain of what was read so far with what a parse from there gives.
pub open spec fn prepend_ops(
    done: Seq<DeltaOpV>,
    rest: Option<(Seq<DeltaOpV>, int)>,
) -> Option<(Seq<DeltaOpV>, int)> {
    match rest {
        Some((r, e)) => Some((done + r, e)),
        None => None,
    }
}

pub fn read_ops(buf: &[u8], pos: usize, n: u32) -> (r: Option<(Vec<DeltaOp>, usize)>)
    ensures
        match r {
            Some((v, q)) => p_ops(buf@, pos as int, n as nat) == Some((ops_view(v@), q as int)),
            None => p_ops(buf@, pos as int, n as nat) is None,
        },
{
    let mut ops: Vec<DeltaOp> = Vec::new();
    let mut p: usize = pos;
    let mut i: u32 = 0;
    while i < n
        invariant
            i <= n,
            ops@.len() == i,
            p_ops(buf@, pos as int, n as nat) == prepend_ops(
                ops_view(ops@),
                p_ops(buf@, p as int, (n - i) as nat),
            ),
        decreases n - i,
    {
        let ghost before = ops_view(ops@);
        match DeltaOp::read_from(buf, p) {
            Some((o, q)) => {
                ops.push(o);
                proof {
                    assert(ops_view(ops@) =~= before.push(o@));
                    let later = p_ops(buf@, q as int, (n - i - 1) as nat);
                    match later {
                        Some((rest, e)) => {
                            assert(before + (seq![o@] + rest) =~= before.push(o@) + rest);
                        },
                        None => {},
                    }
                }
                p = q;
            },
            None => {
                return None;
            },
        }
        i = i + 1;
    }
    assert(ops_view(ops@) + Seq::<DeltaOpV>::empty() =~= ops_view(ops@));
    Some((ops, p))
}

impl DeltaMessage {
    /// Whether the message can be encoded.
    pub fn fits(&self) -> (r: bool)
        ensures
            r == (self@.ops.len() <= u32::MAX && forall|i: int|
                0 <= i < self@.ops.len() ==> op_v_wf(#[trigger] self@.ops[i])),
    {
        self.delta.ops.len() <= 0xFFFF_FFFF && ops_fit(&self.delta.ops)
    }

    pub fn write_to(&self, out: &mut Vec<u8>)
        requires
            self@.ops.len() <= u32::MAX,
            forall|i: int| 0 <= i < self@.ops.len() ==> op_v_wf(#[trigger] self@.ops[i]),
        ensures
            final(out)@ == old(out)@ + enc_delta_message(self@),
    {
        write_raw(out, &self.epoch_id.0);
        write_u32(out, self.delta.ops.len() as u32);
        write_ops(out, &self.delta.ops);
        assert(out@ =~= old(out)@ + enc_delta_message(self@));
    }

    pub fn read_from(buf: &[u8], pos: usize) -> (r: Option<(DeltaMessage, usize)>)
        ensures
            match r {
                Some((v, q)) => p_delta_message(buf@, pos as int) == Some((v@, q as int)),
                None => p_delta_message(buf@, pos as int) is None,
            },
    {
        let (epoch_id, p1) = match read_arr32(buf, pos) {
            Some(x) => x,
            None => return None,
        };
        let (n, p2) = match read_u32(buf, p1) {
            Some(x) => x,
            None => return None,
        };
        let (ops, p3) = match read_ops(buf, p2, n) {
            Some(x) => x,
            None => return None,
        };
        Some((DeltaMessage { epoch_id: EpochId(epoch_id), delta: StateDelta { ops } }, p3))
    }
}

impl VerificationMessage {
    pub fn write_to(&self, out: &mut Vec<u8>)
        ensures
            final(out)@ == old(out)@ + enc_verification(*self),
    {
        write_u64(out, self.transition_id);
        write_bool(out, self.is_valid);
        write_opt_error_code(out, self.error_code);
        assert(out@ =~= old(out)@ + enc_verification(*self));
    }

    pub fn read_from(buf: &[u8], pos: usize) -> (r: Option<(VerificationMessage, usize)>)
        ensures
            read_matches(r, p_verification(buf@, pos as int)),
    {
        let (transition_id, p1) = match read_u64(buf, pos) {
            Some(x) => x,
            None => return None,
        };
        let (is_valid, p2) = match read_bool(buf, p1) {
            Some(x) => x,
            None => return None,
        };
        let (error_code, p3) = match read_opt_error_code(buf, p2) {
            Some(x) => x,
            None => return None,
        };
        Some((VerificationMessage { transition_id, is_valid, error_code }, p3))
    }
}

impl ReplayMetadata {
    pub fn write_to(&self, out: &mut Vec<u8>)
        ensures
            final(out)@ == old(out)@ + enc_replay_metadata(self@),
    {
        write_raw(out, &self.session_id);
        write_raw(out, &self.start_epoch.0);
        let end = match self.end_epoch {
            Some(e) => Some(e.0),
            None => None,
        };
        write_opt32(out, end);
        write_u32(out, self.tick_rate);
        assert(opt_arr_view(end) == self@.end_epoch);
        assert(out@ =~= old(out)@ + enc_replay_metadata(self@));
    }

    pub fn read_from(buf: &[u8], pos: usize) -> (r: Option<(ReplayMetadata, usize)>)
        ensures
            match r {
                Some((v, q)) => p_replay_metadata(buf@, pos as int) == Some((v@, q as int)),
                None => p_replay_metadata(buf@, pos as int) is None,
            },
    {
        if pos > buf.len() || buf.len() - pos < 64 {
            return None;
        }
        let (session_id, p1) = match read_arr32(buf, pos) {
            Some(x) => x,
            None => return None,
        };
        let (start, p2) = match read_arr32(buf, p1) {
            Some(x) => x,
            None => return None,
        };
        let (end, p3) = match read_opt32(buf, p2) {
            Some(x) => x,
            None => return None,
        };
        let (tick_rate, p4) = match read_u32(buf, p3) {
            Some(x) => x,
            None => return None,
        };
        let end_epoch = match end {
            Some(a) => Some(EpochId(a)),
            None => None,
        };
        let v = ReplayMetadata { session_id, start_epoch: EpochId(start), end_epoch, tick_rate };
        assert(v@.end_epoch == opt_arr_view(end));
        Some((v, p4))
    }
}

impl LaurnMessagePayload {
    /// Whether the payload can be encoded: every length fits its prefix.
    pub fn fits(&self) -> (r: bool)
        ensures
            r == payload_fits(self@),
    {
        match self {
            LaurnMessagePayload::Transition(m) => m.raw_payload.len() <= 0xFFFF_FFFF,
            LaurnMessagePayload::Delta(m) => m.fits(),
            _ => true,
        }
    }

    pub fn write_to(&self, out: &mut Vec<u8>)
        requires
            payload_fits(self@),
        ensures
            final(out)@ == old(out)@ + enc_payload(self@),
    {
        match self {
            LaurnMessagePayload::HandshakeRequest(m) => {
                write_u8(out, 0);
                m.write_to(out);
            },
            LaurnMessagePayload::HandshakeResponse(m) => {
                write_u8(out, 1);
                m.write_to(out);
            },
            LaurnMessagePayload::CapabilityNegotiation(m) => {
                write_u8(out, 2);
                write_u32(out, m.requested_capabilities.bits());
            },
            LaurnMessagePayload::State(m) => {
                write_u8(out, 3);
                m.state.write_to(out);
            },
            LaurnMessagePayload::Transition(m) => {
                write_u8(out, 4);
                m.write_to(out);
            },
            LaurnMessagePayload::Delta(m) => {
                write_u8(out, 5);
                m.write_to(out);
            },
            LaurnMessagePayload::Verification(m) => {
                write_u8(out, 6);
                m.write_to(out);
            },
            LaurnMessagePayload::Error(m) => {
                write_u8(out, 7);
                write_error_code(out, m.code);
            },
            LaurnMessagePayload::ReplayMetadata(m) => {
                write_u8(out, 8);
                m.write_to(out);
            },
        }
        assert(out@ =~= old(out)@ + enc_payload(self@));
    }

    pub fn read_from(buf: &[u8], pos: usize) -> (r: Option<(LaurnMessagePayload, usize)>)
        ensures
            match r {
                Some((v, q)) => p_payload(buf@, pos as int) == Some((v@, q as int)),
                None => p_payload(buf@, pos as int) is None,
            },
    {
        let (t, p) = match read_u8(buf, pos) {
            Some(x) => x,
            None => return None,
        };
        if t == 0 {
            match HandshakeRequest::read_from(buf, p) {
                Some((m, q)) => Some((LaurnMessagePayload::HandshakeRequest(m), q)),
                None => None,
            }
        } else if t == 1 {
            match HandshakeResponse::read_from(buf, p) {
                Some((m, q)) => Some((LaurnMessagePayload::HandshakeResponse(m), q)),
                None => None,
            }
        } else if t == 2 {
            match read_u32(buf, p) {
                Some((bits, q)) => match AuthorityCapability::from_bits(bits) {
                    Some(c) => Some(
                        (
                            LaurnMessagePayload::CapabilityNegotiation(
                                CapabilityNegotiation { requested_capabilities: c },
                            ),
                            q,
                        ),
                    ),
                    None => None,
                },
                None => None,
            }
        } else if t == 3 {
            match CanonicalState::read_from(buf, p) {
                Some((m, q)) => Some((LaurnMessagePayload::State(StateMessage { state: m }), q)),
                None => None,
            }
        } else if t == 4 {
            match TransitionMessage::read_from(buf, p) {
                Some((m, q)) => Some((LaurnMessagePayload::Transition(m), q)),
                None => None,
            }
        } else if t == 5 {
            match DeltaMessage::read_from(buf, p) {
                Some((m, q)) => Some((LaurnMessagePayload::Delta(m), q)),
                None => None,
            }
        } else if t == 6 {
            match VerificationMessage::read_from(buf, p) {
                Some((m, q)) => Some((LaurnMessagePayload::Verification(m), q)),
                None => None,
            }
        } else if t == 7 {
            match read_error_code(buf, p) {
                Some((c, q)) => Some((LaurnMessagePayload::Error(ErrorMessage { code: c }), q)),
                None => None,
            }
        } else if t == 8 {
            match ReplayMetadata::read_from(buf, p) {
                Some((m, q)) => Some((LaurnMessagePayload::ReplayMetadata(m), q)),
                None => None,
            }
        } else {
            None
        }
    }
}

impl LaurnMessage {
    /// Whether the message can be encoded: every length fits its prefix.
    pub fn fits(&self) -> (r: bool)
        ensures
            r == payload_fits(self@.payload),
    {
        self.payload.fits()
    }

    /// Appends the encoding of the message.
    pub fn write_to(&self, out: &mut Vec<u8>)
        requires
            payload_fits(self@.payload),
        ensures
            final(out)@ == old(out)@ + enc_message(self@),
    {
        self.version.write_to(out);
        self.payload.write_to(out);
        assert(out@ =~= old(out)@ + enc_message(self@));
    }

    /// The encoding of the message, or `None` when a length does not fit
    /// its `u32` prefix.
    pub fn try_to_vec(&self) -> (r: Option<Vec<u8>>)
        ensures
            r is Some <==> payload_fits(self@.payload),
            r matches Some(b) ==> b@ == enc_message(self@),
    {
        if !self.fits() {
            return None;
        }
        let mut out: Vec<u8> = Vec::new();
        self.write_to(&mut out);
        assert(out@ =~= enc_message(self@));
        Some(out)
    }

    /// Reads a message at `pos`.
    pub fn read_from(buf: &[u8], pos: usize) -> (r: Option<(LaurnMessage, usize)>)
        ensures
            match r {
                Some((v, q)) => p_message(buf@, pos as int) == Some((v@, q as int)),
                None => p_message(buf@, pos as int) is None,
            },
    {
        let (version, p) = match ProtocolVersion::read_from(buf, pos) {
            Some(x) => x,
            None => return None,
        };
        match LaurnMessagePayload::read_from(buf, p) {
            Some((payload, q)) => Some((LaurnMessage { version, payload }, q)),
            None => None,
        }
    }

    /// Decodes a message that occupies the whole of `bytes`.
    pub fn try_from_slice(bytes: &[u8]) -> (r: Option<LaurnMessage>)
        ensures
            match decode_message(bytes@) {
                Some(m) => r matches Some(v) && v@ == m,
                None => r is None,
            },
    {
        match Self::read_from(bytes, 0) {
            Some((m, q)) => if q == bytes.len() {
                Some(m)
            } else {
                None
            },
            None => None,
        }
    }
}

} // verus!
