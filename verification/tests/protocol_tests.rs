use laurn::authority::{AuthorityCapability, AuthorityId};
use laurn::commitment::StateCommitment;
use laurn::delta::{CollectionChangeType, DeltaOp, StateDelta};
use laurn::epoch::EpochId;
use laurn::protocol::codec::{CodecError, LaurnCodec, MAGIC_BYTES, MAX_MESSAGE_SIZE};
use laurn::protocol::{
    CapabilityNegotiation, DeltaMessage, ErrorCode, ErrorMessage, HandshakeRequest,
    HandshakeResponse, LaurnMessage, LaurnMessagePayload, ReplayMetadata, StateMessage,
    TransitionMessage, VerificationMessage,
};
use laurn::state::{CanonicalState, ParentStateId, StateId};
use laurn::transition::build_transition;
use laurn::version::ProtocolVersion;

fn create_test_message() -> LaurnMessage {
    LaurnMessage {
        version: ProtocolVersion::new(1, 0, 0),
        payload: LaurnMessagePayload::Error(ErrorMessage { code: ErrorCode::Unknown }),
    }
}

#[test]
fn test_laurn_message_serialization() -> Result<(), Box<dyn std::error::Error>> {
    let version = ProtocolVersion::new(1, 0, 0);
    let msg = LaurnMessage {
        version,
        payload: LaurnMessagePayload::Error(ErrorMessage { code: ErrorCode::IncompatibleVersion }),
    };

    let bytes = msg.try_to_vec().ok_or("encoding failed")?;
    let decoded: LaurnMessage = LaurnMessage::try_from_slice(&bytes).ok_or("decoding failed")?;

    assert_eq!(msg, decoded);
    Ok(())
}

#[test]
fn test_version_extraction_before_full_decode() -> Result<(), Box<dyn std::error::Error>> {
    let version = ProtocolVersion::new(2, 5, 1);
    let msg = LaurnMessage {
        version,
        payload: LaurnMessagePayload::Error(ErrorMessage { code: ErrorCode::Unknown }),
    };
    let bytes = msg.try_to_vec().ok_or("encoding failed")?;

    // The ProtocolVersion is the first thing in the message: three u32s, 12 bytes.
    let decoded_version =
        ProtocolVersion::try_from_slice(&bytes[0..12]).ok_or("decoding failed")?;

    assert_eq!(decoded_version.major, 2);
    assert_eq!(decoded_version.minor, 5);
    assert_eq!(decoded_version.patch, 1);
    Ok(())
}

#[test]
fn test_round_trip() -> Result<(), Box<dyn std::error::Error>> {
    let msg = create_test_message();
    let encoded = LaurnCodec::encode(&msg).map_err(|e| format!("{e:?}"))?;
    let (decoded, consumed) = LaurnCodec::decode(&encoded).map_err(|e| format!("{e:?}"))?;

    assert_eq!(msg, decoded);
    assert_eq!(consumed, encoded.len());
    Ok(())
}

#[test]
fn test_incomplete_message() -> Result<(), Box<dyn std::error::Error>> {
    let msg = create_test_message();
    let encoded = LaurnCodec::encode(&msg).map_err(|e| format!("{e:?}"))?;

    // Truncate at exactly 7 bytes (missing length)
    let result = LaurnCodec::decode(&encoded[0..7]);
    assert_eq!(result, Err(CodecError::IncompleteMessage));

    // Truncate payload
    let result2 = LaurnCodec::decode(&encoded[0..encoded.len() - 1]);
    assert_eq!(result2, Err(CodecError::IncompleteMessage));
    Ok(())
}

#[test]
fn test_invalid_magic_bytes() -> Result<(), Box<dyn std::error::Error>> {
    let msg = create_test_message();
    let mut encoded = LaurnCodec::encode(&msg).map_err(|e| format!("{e:?}"))?;

    // Corrupt magic bytes
    encoded[0] = b'X';

    let result = LaurnCodec::decode(&encoded);
    assert_eq!(result, Err(CodecError::InvalidMagicBytes));
    Ok(())
}

#[test]
fn test_oversized_message_rejection() -> Result<(), Box<dyn std::error::Error>> {
    // A header claiming 20 MB, which is > MAX_MESSAGE_SIZE
    let massive_len = 20 * 1024 * 1024_u32;
    let mut frame = Vec::new();
    frame.extend_from_slice(&MAGIC_BYTES);
    frame.extend_from_slice(&massive_len.to_le_bytes());
    // Add just a few bytes of garbage
    frame.extend_from_slice(&[0, 1, 2, 3]);

    // It should reject immediately without trying to read 20 MB or wait for it
    let result = LaurnCodec::decode(&frame);
    assert_eq!(result, Err(CodecError::MessageTooLarge(massive_len)));
    Ok(())
}

#[test]
fn test_malformed_payload() -> Result<(), Box<dyn std::error::Error>> {
    let msg = create_test_message();
    let mut encoded = LaurnCodec::encode(&msg).map_err(|e| format!("{e:?}"))?;

    // Frame: 0..4 magic, 4..8 length, 8..20 version, 20 payload variant index
    encoded[20] = 255;

    let result = LaurnCodec::decode(&encoded);
    assert_eq!(result, Err(CodecError::MalformedPayload));
    Ok(())
}

fn every_payload() -> Vec<LaurnMessagePayload> {
    let transition = build_transition(3, [1; 32], [2; 32], 77, [3; 32], [4; 32], b"go");
    vec![
        LaurnMessagePayload::HandshakeRequest(HandshakeRequest {
            client_version: ProtocolVersion::current(),
            client_authority: AuthorityId([5; 32]),
        }),
        LaurnMessagePayload::HandshakeResponse(HandshakeResponse {
            server_version: ProtocolVersion::new(9, 8, 7),
            server_authority: AuthorityId([6; 32]),
            accepted: true,
        }),
        LaurnMessagePayload::CapabilityNegotiation(CapabilityNegotiation {
            requested_capabilities: AuthorityCapability::CAN_SPAWN()
                .union(AuthorityCapability::CAN_ADMINISTER()),
        }),
        LaurnMessagePayload::State(StateMessage {
            state: CanonicalState {
                state_id: StateId([7; 32]),
                parent_state_id: Some(ParentStateId([8; 32])),
                epoch_id: EpochId([9; 32]),
                authority_id: AuthorityId([10; 32]),
                state_version: 11,
                simulation_tick: 12,
                state_commitment: StateCommitment([13; 32]),
                protocol_version: ProtocolVersion::new(1, 2, 3),
            },
        }),
        LaurnMessagePayload::State(StateMessage {
            state: CanonicalState {
                state_id: StateId([7; 32]),
                parent_state_id: None,
                epoch_id: EpochId([9; 32]),
                authority_id: AuthorityId([10; 32]),
                state_version: 0,
                simulation_tick: u64::MAX,
                state_commitment: StateCommitment([13; 32]),
                protocol_version: ProtocolVersion::new(1, 2, 3),
            },
        }),
        LaurnMessagePayload::Transition(TransitionMessage {
            transition,
            transition_class: 1,
            raw_payload: b"go".to_vec(),
            signature: [14; 64],
        }),
        LaurnMessagePayload::Delta(DeltaMessage {
            epoch_id: EpochId([15; 32]),
            delta: StateDelta::new(vec![
                DeltaOp::AddEntity { entity_id: 1, data: vec![1, 2] },
                DeltaOp::RemoveEntity { entity_id: 2 },
                DeltaOp::UpdateField { entity_id: 3, component_id: 4, field_id: 5, data: vec![6] },
                DeltaOp::CollectionChange {
                    entity_id: 7,
                    component_id: 8,
                    collection_id: 9,
                    change_type: CollectionChangeType::Update,
                    data: vec![],
                },
            ]),
        }),
        LaurnMessagePayload::Verification(VerificationMessage {
            transition_id: 42,
            is_valid: false,
            error_code: Some(ErrorCode::VerificationFailed),
        }),
        LaurnMessagePayload::Verification(VerificationMessage {
            transition_id: 43,
            is_valid: true,
            error_code: None,
        }),
        LaurnMessagePayload::Error(ErrorMessage { code: ErrorCode::StaleTransition }),
        LaurnMessagePayload::ReplayMetadata(ReplayMetadata {
            session_id: [16; 32],
            start_epoch: EpochId([17; 32]),
            end_epoch: Some(EpochId([18; 32])),
            tick_rate: 60,
        }),
    ]
}

#[test]
fn every_payload_round_trips_through_the_codec() {
    for payload in every_payload() {
        let msg = LaurnMessage { version: ProtocolVersion::new(3, 1, 4), payload };
        let frame = LaurnCodec::encode(&msg).unwrap();
        assert_eq!(&frame[0..4], b"LRN1");
        let declared = u32::from_le_bytes([frame[4], frame[5], frame[6], frame[7]]) as usize;
        assert_eq!(declared, frame.len() - 8);
        let (back, used) = LaurnCodec::decode(&frame).unwrap();
        assert_eq!(back, msg);
        assert_eq!(used, frame.len());
    }
}

#[test]
fn decoding_stops_at_the_frame_end() {
    let msg = create_test_message();
    let mut stream = LaurnCodec::encode(&msg).unwrap();
    let first_len = stream.len();
    stream.extend_from_slice(&LaurnCodec::encode(&msg).unwrap());
    let (first, used) = LaurnCodec::decode(&stream).unwrap();
    assert_eq!(first, msg);
    assert_eq!(used, first_len);
    let (second, used2) = LaurnCodec::decode(&stream[used..]).unwrap();
    assert_eq!(second, msg);
    assert_eq!(used2, first_len);
}

#[test]
fn payload_encoding_layout() {
    let bytes = create_test_message().try_to_vec().unwrap();
    let mut expected = Vec::new();
    expected.extend_from_slice(&1u32.to_le_bytes());
    expected.extend_from_slice(&0u32.to_le_bytes());
    expected.extend_from_slice(&0u32.to_le_bytes());
    expected.push(7); // Error variant
    expected.push(0); // ErrorCode::Unknown
    assert_eq!(bytes, expected);
}

#[test]
fn trailing_bytes_and_bad_values_are_refused() {
    let mut bytes = create_test_message().try_to_vec().unwrap();
    bytes.push(0);
    assert!(LaurnMessage::try_from_slice(&bytes).is_none());
    // An error code out of range.
    let mut bad = create_test_message().try_to_vec().unwrap();
    bad[13] = 7;
    assert!(LaurnMessage::try_from_slice(&bad).is_none());
    // Undefined capability bits.
    let mut caps = ProtocolVersion::current().major.to_le_bytes().to_vec();
    caps.extend_from_slice(&1u32.to_le_bytes());
    caps.extend_from_slice(&0u32.to_le_bytes());
    caps.push(2);
    caps.extend_from_slice(&0x10u32.to_le_bytes());
    assert!(LaurnMessage::try_from_slice(&caps).is_none());
    // A boolean that is neither 0 nor 1.
    let resp = LaurnMessage {
        version: ProtocolVersion::current(),
        payload: LaurnMessagePayload::HandshakeResponse(HandshakeResponse {
            server_version: ProtocolVersion::current(),
            server_authority: AuthorityId([0; 32]),
            accepted: false,
        }),
    };
    let mut rb = resp.try_to_vec().unwrap();
    let last = rb.len() - 1;
    rb[last] = 2;
    assert!(LaurnMessage::try_from_slice(&rb).is_none());
    assert!(ProtocolVersion::try_from_slice(&[0u8; 11]).is_none());
}

#[test]
fn message_too_large_to_encode() {
    let transition = build_transition(1, [0; 32], [0; 32], 0, [0; 32], [0; 32], b"");
    let msg = LaurnMessage {
        version: ProtocolVersion::current(),
        payload: LaurnMessagePayload::Transition(TransitionMessage {
            transition,
            transition_class: 1,
            raw_payload: vec![0u8; MAX_MESSAGE_SIZE as usize],
            signature: [0; 64],
        }),
    };
    let expected_len = 12 + 1 + 176 + 4 + 4 + MAX_MESSAGE_SIZE + 64;
    assert_eq!(LaurnCodec::encode(&msg), Err(CodecError::MessageTooLarge(expected_len)));
}
