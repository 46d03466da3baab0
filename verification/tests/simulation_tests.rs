use laurn::commitment::StateCommitment;
use laurn::protocol::{LaurnMessage, LaurnMessagePayload};
use laurn::replay::divergence::{compare_recordings, DivergenceReason, DivergenceReport};
use laurn::replay::ReplayError;
use laurn::verification::transition_signing_bytes;
use laurn::simulation::{issue_evidence, run_epoch, run_session, ServerNode, DESYNC_EPOCH};

fn state(epoch: u8, tag: u8) -> StateCommitment {
    let mut h = [0u8; 32];
    h[0] = epoch;
    h[1] = tag;
    StateCommitment(h)
}

#[test]
fn session_diverges_exactly_at_the_desync_epoch() {
    let mut s1 = ServerNode::new(1);
    let mut s2 = ServerNode::new(2);
    let mut s3 = ServerNode::new(3);
    let outcome = run_session(&mut s1, &mut s2, &mut s3);
    assert_eq!(outcome.reference_output_state, state(DESYNC_EPOCH, 0xAA));
    assert_eq!(outcome.s2_output_state, state(DESYNC_EPOCH, 0xBB));
    assert_eq!(s1.replay_recorder.frames.len(), usize::from(DESYNC_EPOCH));
    assert_eq!(s1.state_commitment, s3.state_commitment);
    assert_ne!(s1.state_commitment, s2.state_commitment);
    assert_eq!(s1.state_commitment, state(DESYNC_EPOCH, 0xAA));
    assert_eq!(s2.state_commitment, state(DESYNC_EPOCH, 0xBB));
    assert_eq!(s1.replay_recorder.frames, s3.replay_recorder.frames);
    let last = usize::from(DESYNC_EPOCH) - 1;
    assert_eq!(s1.replay_recorder.frames[..last], s2.replay_recorder.frames[..last]);
    assert_eq!(s1.replay_recorder.frames[last].raw_payload, s2.replay_recorder.frames[last].raw_payload);
    assert_eq!(s2.replay_recorder.frames[last].expected_output_state, state(DESYNC_EPOCH, 0xBB));

    let report = compare_recordings(&s1.replay_recorder, &s2.replay_recorder).unwrap();
    assert_eq!(
        report,
        Some(DivergenceReport {
            frame_index: u32::from(DESYNC_EPOCH) - 1,
            reason: DivergenceReason::CommitmentMismatch {
                expected: state(DESYNC_EPOCH, 0xAA),
                actual: state(DESYNC_EPOCH, 0xBB),
            },
        })
    );
    assert_eq!(compare_recordings(&s1.replay_recorder, &s3.replay_recorder), Ok(None));

    let evidence = issue_evidence(&s1, &outcome, DESYNC_EPOCH);
    assert!(evidence.verify_signature(&s1.authority_id.0));
    assert!(!evidence.verify_signature(&s2.authority_id.0));
}

#[test]
fn recorded_messages_decode_to_signed_transitions() {
    let mut s1 = ServerNode::new(7);
    let mut s2 = ServerNode::new(8);
    let mut s3 = ServerNode::new(9);
    run_epoch(&mut s1, &mut s2, &mut s3, 4, false);
    let frame = &s1.replay_recorder.frames[0];
    assert_eq!(frame.expected_output_state, state(4, 0xAA));
    let msg = LaurnMessage::try_from_slice(&frame.raw_payload).unwrap();
    match msg.payload {
        LaurnMessagePayload::Transition(t) => {
            assert_eq!(t.transition.id.0, 4);
            assert_eq!(t.transition.metadata.timestamp_ms, 4000);
            assert_eq!(t.transition.metadata.epoch_id.0, [4; 32]);
            assert_eq!(t.transition.input_state, StateCommitment([0; 32]));
            let mut payload = vec![0u8; 32];
            payload[0] = 4;
            assert_eq!(t.raw_payload, payload);
            let key = ed25519_dalek::VerifyingKey::from_bytes(&s1.authority_id.0).unwrap();
            let sig = ed25519_dalek::Signature::from_bytes(&t.signature);
            assert_eq!(t.transition_class, 1);
            let signed = transition_signing_bytes(&t.transition, t.transition_class);
            assert!(key.verify_strict(&signed, &sig).is_ok());
            assert!(key.verify_strict(&t.transition.to_bytes(), &sig).is_err());
        }
        _ => panic!("not a transition"),
    }
    assert_eq!(s1.state_commitment, state(4, 0xAA));
}

#[test]
fn bad_magic_is_reported() {
    let mut s1 = ServerNode::new(1);
    let s2 = ServerNode::new(2);
    s1.replay_recorder.header.magic = *b"NOTMAGIC";
    assert_eq!(
        compare_recordings(&s1.replay_recorder, &s2.replay_recorder),
        Err(ReplayError::InvalidMagic)
    );
}

#[test]
fn server_keys_follow_their_seed() {
    let a = ServerNode::new(11);
    let b = ServerNode::new(11);
    let c = ServerNode::new(12);
    assert_eq!(a.signing_secret, b.signing_secret);
    assert_eq!(a.authority_id, b.authority_id);
    assert_ne!(a.signing_secret, c.signing_secret);
    assert_ne!(a.authority_id, c.authority_id);
}
