use laurn::authority::AuthorityId;
use laurn::commitment::StateCommitment;
use laurn::epoch::EpochId;
use laurn::ffi::{LaurnDivergenceReason, LaurnDivergenceReport};
use laurn::protocol::{ErrorCode, ErrorMessage, LaurnMessage, LaurnMessagePayload, TransitionMessage};
use laurn::replay::divergence::{DivergenceAnalyzer, DivergenceReason, DivergenceReport};
use laurn::replay::{ReplayReader, ReplayRecorder};
use laurn::transition::build_transition;
use laurn::version::ProtocolVersion;

fn transition_payload(authority: u8, epoch: u8, input: u8, body: &[u8]) -> Vec<u8> {
    let t = build_transition(1, [authority; 32], [epoch; 32], 10, [input; 32], [0; 32], body);
    LaurnMessage {
        version: ProtocolVersion::current(),
        payload: LaurnMessagePayload::Transition(TransitionMessage {
            transition: t,
            transition_class: 1,
            raw_payload: body.to_vec(),
            signature: [0; 64],
        }),
    }
    .try_to_vec()
    .unwrap()
}

fn recording(frames: &[(Vec<u8>, u8)]) -> Vec<u8> {
    let mut r = ReplayRecorder::new(StateCommitment([0; 32]));
    for (p, s) in frames {
        r.add_frame(p.clone(), StateCommitment([*s; 32]));
    }
    r.serialize().unwrap()
}

fn analyze(a: &[u8], b: &[u8]) -> Option<DivergenceReport> {
    let mut ra = ReplayReader::new(a).unwrap();
    let mut rb = ReplayReader::new(b).unwrap();
    DivergenceAnalyzer::analyze(&mut ra, &mut rb)
}

#[test]
fn identical_replays_do_not_diverge() {
    let p = transition_payload(1, 2, 3, b"a");
    let a = recording(&[(p.clone(), 1), (p.clone(), 2)]);
    assert_eq!(analyze(&a, &a), None);
}

#[test]
fn commitment_mismatch_is_reported_at_its_frame() {
    let p = transition_payload(1, 2, 3, b"a");
    let a = recording(&[(p.clone(), 1), (p.clone(), 2)]);
    let b = recording(&[(p.clone(), 1), (p.clone(), 9)]);
    assert_eq!(
        analyze(&a, &b),
        Some(DivergenceReport {
            frame_index: 1,
            reason: DivergenceReason::CommitmentMismatch {
                expected: StateCommitment([2; 32]),
                actual: StateCommitment([9; 32]),
            },
        })
    );
}

#[test]
fn payload_differences_are_explained() {
    let base = transition_payload(1, 2, 3, b"a");
    let cases = [
        (
            transition_payload(1, 5, 3, b"a"),
            DivergenceReason::EpochMismatch { expected: EpochId([2; 32]), actual: EpochId([5; 32]) },
        ),
        (
            transition_payload(6, 2, 3, b"a"),
            DivergenceReason::AuthorityMismatch {
                expected: AuthorityId([1; 32]),
                actual: AuthorityId([6; 32]),
            },
        ),
        (
            transition_payload(1, 2, 7, b"a"),
            DivergenceReason::ParentMismatch {
                expected: StateCommitment([3; 32]),
                actual: StateCommitment([7; 32]),
            },
        ),
        (transition_payload(1, 2, 3, b"b"), DivergenceReason::PayloadMismatch),
        (vec![1, 2, 3], DivergenceReason::DecodeFailed),
    ];
    for (other, reason) in cases {
        let a = recording(&[(base.clone(), 1)]);
        let b = recording(&[(other, 1)]);
        assert_eq!(analyze(&a, &b), Some(DivergenceReport { frame_index: 0, reason }));
    }
    let not_a_transition = LaurnMessage {
        version: ProtocolVersion::current(),
        payload: LaurnMessagePayload::Error(ErrorMessage { code: ErrorCode::Unknown }),
    }
    .try_to_vec()
    .unwrap();
    let a = recording(&[(base.clone(), 1)]);
    let b = recording(&[(not_a_transition, 1)]);
    assert_eq!(
        analyze(&a, &b),
        Some(DivergenceReport { frame_index: 0, reason: DivergenceReason::PayloadMismatch })
    );
}

#[test]
fn length_mismatches() {
    let p = transition_payload(1, 2, 3, b"a");
    let short = recording(&[(p.clone(), 1)]);
    let long = recording(&[(p.clone(), 1), (p.clone(), 2)]);
    assert_eq!(
        analyze(&short, &long),
        Some(DivergenceReport {
            frame_index: 1,
            reason: DivergenceReason::LengthMismatch { expected_frames: 1, actual_frames: 2 },
        })
    );
    assert_eq!(
        analyze(&long, &short),
        Some(DivergenceReport {
            frame_index: 1,
            reason: DivergenceReason::LengthMismatch { expected_frames: 2, actual_frames: 1 },
        })
    );
}

#[test]
fn truncated_frames_fail_to_decode() {
    let p = transition_payload(1, 2, 3, b"a");
    let good = recording(&[(p.clone(), 1)]);
    let broken = &good[..good.len() - 1];
    assert_eq!(
        analyze(broken, &good),
        Some(DivergenceReport { frame_index: 0, reason: DivergenceReason::DecodeFailed })
    );
    assert_eq!(
        analyze(&good, broken),
        Some(DivergenceReport { frame_index: 0, reason: DivergenceReason::DecodeFailed })
    );
}

#[test]
fn flat_report_carries_the_reason_data() {
    let report = DivergenceReport {
        frame_index: 4,
        reason: DivergenceReason::EpochMismatch { expected: EpochId([1; 32]), actual: EpochId([2; 32]) },
    };
    let c = LaurnDivergenceReport::from_report(&report);
    assert_eq!(c.frame_index, 4);
    assert_eq!(c.reason, LaurnDivergenceReason::EpochMismatch);
    assert_eq!(c.expected_epoch, [1; 32]);
    assert_eq!(c.actual_epoch, [2; 32]);
    assert_eq!(c.expected_commitment, [0; 32]);
    assert_eq!(c.expected_frames, 0);
    let lm = LaurnDivergenceReport::from_report(&DivergenceReport {
        frame_index: 0,
        reason: DivergenceReason::LengthMismatch { expected_frames: 3, actual_frames: 5 },
    });
    assert_eq!(lm.reason, LaurnDivergenceReason::LengthMismatch);
    assert_eq!((lm.expected_frames, lm.actual_frames), (3, 5));
    assert_eq!(lm.actual_authority, [0; 32]);
}
