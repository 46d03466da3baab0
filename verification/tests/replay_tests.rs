use laurn::commitment::StateCommitment;
use laurn::replay::{ReplayError, ReplayHeader, ReplayReader, ReplayRecorder, REPLAY_MAGIC};

#[test]
fn test_replay_recorder_and_reader() -> Result<(), Box<dyn std::error::Error>> {
    let initial_state = StateCommitment([0; 32]); // Just zeroes
    let mut recorder = ReplayRecorder::new(initial_state);

    let raw_payload = vec![1, 2, 3, 4];
    let mut output_state = StateCommitment([0; 32]);
    output_state.0[0] = 99; // some synthetic state

    recorder.add_frame(raw_payload.clone(), output_state);

    // Serialize
    let serialized = recorder.serialize().map_err(|e| e.message())?;

    // Deserialize
    let mut reader = ReplayReader::new(&serialized).map_err(|e| e.message())?;

    assert_eq!(reader.header.magic, *b"LAURNRPL");
    assert_eq!(reader.header.initial_state, initial_state);
    assert_eq!(reader.total_frames, 1);

    let frame = reader.next_frame().map_err(|e| e.message())?.ok_or("missing replay frame")?;
    assert_eq!(frame.raw_payload, raw_payload);
    assert_eq!(frame.expected_output_state, output_state);

    let none = reader.next_frame().map_err(|e| e.message())?;
    assert!(none.is_none());
    Ok(())
}

#[test]
fn test_invalid_magic() -> Result<(), Box<dyn std::error::Error>> {
    let mut buffer = Vec::new();
    // Manually craft bad magic
    buffer.extend_from_slice(b"BADMAGIC");
    buffer.extend_from_slice(&1u32.to_le_bytes()); // version
    buffer.extend_from_slice(&[0u8; 32]); // state
    buffer.extend_from_slice(&0u32.to_le_bytes()); // 0 frames

    let reader_result = ReplayReader::new(&buffer);
    assert!(reader_result.is_err());
    assert_eq!(reader_result.err().ok_or("err")?.message(), "Invalid replay magic bytes");
    Ok(())
}

#[test]
fn serialized_layout() {
    let mut recorder = ReplayRecorder::new(StateCommitment([7; 32]));
    recorder.add_frame(vec![0xAB], StateCommitment([8; 32]));
    let bytes = recorder.serialize().unwrap();
    let mut expected = Vec::new();
    expected.extend_from_slice(b"LAURNRPL");
    expected.extend_from_slice(&1u32.to_le_bytes());
    expected.extend_from_slice(&[7; 32]);
    expected.extend_from_slice(&1u32.to_le_bytes());
    expected.extend_from_slice(&1u32.to_le_bytes());
    expected.push(0xAB);
    expected.extend_from_slice(&[8; 32]);
    assert_eq!(bytes, expected);
}

#[test]
fn frames_come_back_in_order() {
    let mut recorder = ReplayRecorder::new(StateCommitment([0; 32]));
    for i in 0..5u8 {
        recorder.add_frame(vec![i; i as usize], StateCommitment([i; 32]));
    }
    let bytes = recorder.serialize().unwrap();
    let mut reader = ReplayReader::new(&bytes).unwrap();
    assert_eq!(reader.total_frames, 5);
    for i in 0..5u8 {
        let f = reader.next_frame().unwrap().unwrap();
        assert_eq!(f.raw_payload, vec![i; i as usize]);
        assert_eq!(f.expected_output_state, StateCommitment([i; 32]));
        assert_eq!(reader.current_frame, u32::from(i) + 1);
    }
    assert_eq!(reader.next_frame(), Ok(None));
    assert_eq!(reader.next_frame(), Ok(None));
}

#[test]
fn truncated_inputs_are_unexpected_eof() {
    let mut recorder = ReplayRecorder::new(StateCommitment([0; 32]));
    recorder.add_frame(vec![1, 2, 3], StateCommitment([1; 32]));
    let bytes = recorder.serialize().unwrap();
    assert_eq!(ReplayReader::new(&bytes[..43]).err(), Some(ReplayError::UnexpectedEof));
    assert_eq!(ReplayReader::new(&bytes[..46]).err(), Some(ReplayError::UnexpectedEof));
    let mut reader = ReplayReader::new(&bytes[..bytes.len() - 1]).unwrap();
    assert_eq!(reader.next_frame(), Err(ReplayError::UnexpectedEof));
    // A failed read leaves the reader where it was.
    assert_eq!(reader.current_frame, 0);
    assert_eq!(ReplayError::UnexpectedEof.message(), "Unexpected length of input");
    assert_eq!(ReplayError::LengthOverflow.message(), "Length does not fit in u32");
}

#[test]
fn defaults() {
    let h = ReplayHeader::default();
    assert_eq!(h.magic, REPLAY_MAGIC);
    assert_eq!(h.version, 1);
    assert_eq!(h.initial_state, StateCommitment([0; 32]));
    let r = ReplayRecorder::default();
    assert_eq!(r.header, h);
    assert!(r.frames.is_empty());
    let empty = r.serialize().unwrap();
    assert_eq!(empty.len(), 48);
    let mut reader = ReplayReader::new(&empty).unwrap();
    assert_eq!(reader.total_frames, 0);
    assert_eq!(reader.next_frame(), Ok(None));
}
