//! Finding the first frame at which two replays of a session diverge.
use super::{
    enc_frames, enc_header, frame_pos, frame_v_wf, frames_view, header_v_wf, lemma_frame_at,
    lemma_replay_roundtrip, p_frame, replay_bytes, ReplayError, ReplayFrameV, ReplayHeaderV,
    ReplayReader, ReplayRecorder, REPLAY_MAGIC,
};
use crate::wire::{
    bytes_fit, enc_u32, holds_at, lemma_enc_u32_len, lemma_holds_at_split, lemma_holds_at_whole,
};
use crate::authority::AuthorityId;
use crate::commitment::StateCommitment;
use crate::epoch::EpochId;
use crate::protocol::format::decode_message;
use crate::protocol::{LaurnMessage, LaurnMessagePayload, PayloadV};
use crate::wire::{bytes_eq, eq_bytes32};
use vstd::prelude::*;

verus! {

#[derive(Debug, Clone, PartialEq, Eq)]
pub enum DivergenceReason {
    ParentMismatch { expected: StateCommitment, actual: StateCommitment },
    CommitmentMismatch { expected: StateCommitment, actual: StateCommitment },
    EpochMismatch { expected: EpochId, actual: EpochId },
    AuthorityMismatch { expected: AuthorityId, actual: AuthorityId },
    PayloadMismatch,
    LengthMismatch { expected_frames: u32, actual_frames: u32 },
    DecodeFailed,
}

/// The content of a divergence reason, identifiers and commitments as byte
/// sequences.
pub enum DivergenceReasonV {
    ParentMismatch { expected: Seq<u8>, actual: Seq<u8> },
    CommitmentMismatch { expected: Seq<u8>, actual: Seq<u8> },
    EpochMismatch { expected: Seq<u8>, actual: Seq<u8> },
    AuthorityMismatch { expected: Seq<u8>, actual: Seq<u8> },
    PayloadMismatch,
    LengthMismatch { expected_frames: u32, actual_frames: u32 },
    DecodeFailed,
}

impl View for DivergenceReason {
    type V = DivergenceReasonV;

    open spec fn view(&self) -> DivergenceReasonV {
        match self {
            DivergenceReason::ParentMismatch { expected, actual } =>
                DivergenceReasonV::ParentMismatch { expected: expected@, actual: actual@ },
            DivergenceReason::CommitmentMismatch { expected, actual } =>
                DivergenceReasonV::CommitmentMismatch { expected: expected@, actual: actual@ },
            DivergenceReason::EpochMismatch { expected, actual } =>
                DivergenceReasonV::EpochMismatch { expected: expected@, actual: actual@ },
            DivergenceReason::AuthorityMismatch { expected, actual } =>
                DivergenceReasonV::AuthorityMismatch { expected: expected@, actual: actual@ },
            DivergenceReason::PayloadMismatch => DivergenceReasonV::PayloadMismatch,
            DivergenceReason::LengthMismatch { expected_frames, actual_frames } =>
                DivergenceReasonV::LengthMismatch {
                expected_frames: *expected_frames,
                actual_frames: *actual_frames,
            },
            DivergenceReason::DecodeFailed => DivergenceReasonV::DecodeFailed,
        }
    }
}

#[derive(Debug, Clone, PartialEq, Eq)]
pub struct DivergenceReport {
    pub frame_index: u32,
    pub reason: DivergenceReason,
}

pub struct DivergenceReportV {
    pub frame_index: u32,
    pub reason: DivergenceReasonV,
}

impl View for DivergenceReport {
    type V = DivergenceReportV;

    open spec fn view(&self) -> DivergenceReportV {
        DivergenceReportV { frame_index: self.frame_index, reason: self.reason@ }
    }
}

/// Why two differing payloads diverge: both must decode as messages; when
/// both are transitions, the first of epoch, authority and input state that
/// differs is reported, and otherwise the payloads simply differ.
pub open spec fn payload_divergence(auth: Seq<u8>, test: Seq<u8>) -> DivergenceReasonV {
    match decode_message(auth) {
        None => DivergenceReasonV::DecodeFailed,
        Some(a) => match decode_message(test) {
            None => DivergenceReasonV::DecodeFailed,
            Some(t) => match (a.payload, t.payload) {
                (PayloadV::Transition(x), PayloadV::Transition(y)) => {
                    if x.transition.epoch_id != y.transition.epoch_id {
                        DivergenceReasonV::EpochMismatch {
                            expected: x.transition.epoch_id,
                            actual: y.transition.epoch_id,
                        }
                    } else if x.transition.authority_id != y.transition.authority_id {
                        DivergenceReasonV::AuthorityMismatch {
                            expected: x.transition.authority_id,
                            actual: y.transition.authority_id,
                        }
                    } else if x.transition.input_state != y.transition.input_state {
                        DivergenceReasonV::ParentMismatch {
                            expected: x.transition.input_state,
                            actual: y.transition.input_state,
                        }
                    } else {
                        DivergenceReasonV::PayloadMismatch
                    }
                },
                _ => DivergenceReasonV::PayloadMismatch,
            },
        },
    }
}

/// Where a reader stands: the position of its next frame and the number of
/// frames read.
pub struct Cursor {
    pub pos: int,
    pub current: u32,
}

/// What reading the next frame gives, and where the reader then stands.
pub open spec fn next_frame_spec(bytes: Seq<u8>, total: u32, c: Cursor) -> (
    Result<Option<ReplayFrameV>, ReplayError>,
    Cursor,
) {
    if c.current >= total {
        (Ok(None), c)
    } else {
        match p_frame(bytes, c.pos) {
            None => (Err(ReplayError::UnexpectedEof), c),
            Some((f, q)) => (Ok(Some(f)), Cursor { pos: q, current: (c.current + 1) as u32 }),
        }
    }
}

pub open spec fn report(index: u32, reason: DivergenceReasonV) -> Option<DivergenceReportV> {
    Some(DivergenceReportV { frame_index: index, reason })
}

/// The analysis of two replays read in lockstep from the given cursors, the
/// frame at the first cursor being numbered `index`: the first divergence
/// found, if any, and where each reader then stands.
pub open spec fn analysis(
    ab: Seq<u8>,
    at: u32,
    ac: Cursor,
    tb: Seq<u8>,
    tt: u32,
    tc: Cursor,
    index: u32,
) -> (Option<DivergenceReportV>, Cursor, Cursor)
    decreases at - ac.current,
{
    let (ar, ac2) = next_frame_spec(ab, at, ac);
    match ar {
        Ok(None) => {
            let (tr, tc2) = next_frame_spec(tb, tt, tc);
            if tr matches Ok(Some(_)) {
                (
                    report(
                        index,
                        DivergenceReasonV::LengthMismatch { expected_frames: at, actual_frames: tt },
                    ),
                    ac2,
                    tc2,
                )
            } else {
                (None, ac2, tc2)
            }
        },
        Err(_) => (report(index, DivergenceReasonV::DecodeFailed), ac2, tc),
        Ok(Some(af)) => {
            let (tr, tc2) = next_frame_spec(tb, tt, tc);
            match tr {
                Ok(None) => (
                    report(
                        index,
                        DivergenceReasonV::LengthMismatch { expected_frames: at, actual_frames: tt },
                    ),
                    ac2,
                    tc2,
                ),
                Err(_) => (report(index, DivergenceReasonV::DecodeFailed), ac2, tc2),
                Ok(Some(tf)) => if af.raw_payload != tf.raw_payload {
                    (report(index, payload_divergence(af.raw_payload, tf.raw_payload)), ac2, tc2)
                } else if af.expected_output_state != tf.expected_output_state {
                    (
                        report(
                            index,
                            DivergenceReasonV::CommitmentMismatch {
                                expected: af.expected_output_state,
                                actual: tf.expected_output_state,
                            },
                        ),
                        ac2,
                        tc2,
                    )
                } else if ac.current < at {
                    analysis(ab, at, ac2, tb, tt, tc2, (index + 1) as u32)
                } else {
                    (None, ac2, tc2)
                },
            }
        },
    }
}

/// The cursor of a reader.
pub open spec fn cursor_of(r: ReplayReader) -> Cursor {
    Cursor { pos: r.position(), current: r.current() }
}

pub struct DivergenceAnalyzer;

impl DivergenceAnalyzer {
    /// Explains why two differing transition payloads diverge.
    pub fn compare_payloads(frame_index: u32, auth_payload: &[u8], test_payload: &[u8]) -> (r:
        DivergenceReport)
        ensures
            r@ == (DivergenceReportV {
                frame_index,
                reason: payload_divergence(auth_payload@, test_payload@),
            }),
    {
        let auth_msg = match LaurnMessage::try_from_slice(auth_payload) {
            Some(m) => m,
            None => return DivergenceReport { frame_index, reason: DivergenceReason::DecodeFailed },
        };
        let test_msg = match LaurnMessage::try_from_slice(test_payload) {
            Some(m) => m,
            None => return DivergenceReport { frame_index, reason: DivergenceReason::DecodeFailed },
        };
        let auth_t = match auth_msg.payload {
            LaurnMessagePayload::Transition(t) => t,
            _ => return DivergenceReport { frame_index, reason: DivergenceReason::PayloadMismatch },
        };
        let test_t = match test_msg.payload {
            LaurnMessagePayload::Transition(t) => t,
            _ => return DivergenceReport { frame_index, reason: DivergenceReason::PayloadMismatch },
        };
        let a = auth_t.transition;
        let t = test_t.transition;
        if !eq_bytes32(&a.metadata.epoch_id.0, &t.metadata.epoch_id.0) {
            return DivergenceReport {
                frame_index,
                reason: DivergenceReason::EpochMismatch {
                    expected: a.metadata.epoch_id,
                    actual: t.metadata.epoch_id,
                },
            };
        }
        if !eq_bytes32(&a.metadata.authority_id.0, &t.metadata.authority_id.0) {
            return DivergenceReport {
                frame_index,
                reason: DivergenceReason::AuthorityMismatch {
                    expected: a.metadata.authority_id,
                    actual: t.metadata.authority_id,
                },
            };
        }
        if !a.input_state.ct_eq(&t.input_state) {
            return DivergenceReport {
                frame_index,
                reason: DivergenceReason::ParentMismatch {
                    expected: a.input_state,
                    actual: t.input_state,
                },
            };
        }
        DivergenceReport { frame_index, reason: DivergenceReason::PayloadMismatch }
    }

    /// Reads two replays in lockstep and reports the first frame at which
    /// they diverge, or `None` when they hold the same frames.
    pub fn analyze(auth_reader: &mut ReplayReader, test_reader: &mut ReplayReader) -> (r: Option<
        DivergenceReport,
    >)
        requires
            old(auth_reader).wf(),
            old(test_reader).wf(),
        ensures
            ({
                let (res, ac, tc) = analysis(
                    old(auth_reader).bytes(),
                    old(auth_reader).total(),
                    cursor_of(*old(auth_reader)),
                    old(test_reader).bytes(),
                    old(test_reader).total(),
                    cursor_of(*old(test_reader)),
                    0,
                );
                &&& match r {
                    Some(rep) => res == Some(rep@),
                    None => res is None,
                }
                &&& cursor_of(*final(auth_reader)) == ac
                &&& cursor_of(*final(test_reader)) == tc
            }),
            final(auth_reader).wf(),
            final(test_reader).wf(),
            final(auth_reader).bytes() == old(auth_reader).bytes(),
            final(auth_reader).head() == old(auth_reader).head(),
            final(auth_reader).total() == old(auth_reader).total(),
            final(test_reader).bytes() == old(test_reader).bytes(),
            final(test_reader).head() == old(test_reader).head(),
            final(test_reader).total() == old(test_reader).total(),
    {
        let ghost ab = auth_reader.bytes();
        let ghost at = auth_reader.total();
        let ghost tb = test_reader.bytes();
        let ghost tt = test_reader.total();
        let ghost goal = analysis(
            ab,
            at,
            cursor_of(*auth_reader),
            tb,
            tt,
            cursor_of(*test_reader),
            0,
        );
        let ghost start = auth_reader.current();
        let mut frame_index: u32 = 0;
        loop
            invariant
                ab == old(auth_reader).bytes(),
                at == old(auth_reader).total(),
                tb == old(test_reader).bytes(),
                tt == old(test_reader).total(),
                goal == analysis(
                    old(auth_reader).bytes(),
                    old(auth_reader).total(),
                    cursor_of(*old(auth_reader)),
                    old(test_reader).bytes(),
                    old(test_reader).total(),
                    cursor_of(*old(test_reader)),
                    0,
                ),
                auth_reader.wf(),
                test_reader.wf(),
                auth_reader.bytes() == ab,
                auth_reader.total() == at,
                auth_reader.head() == old(auth_reader).head(),
                test_reader.bytes() == tb,
                test_reader.total() == tt,
                test_reader.head() == old(test_reader).head(),
                frame_index + start == auth_reader.current(),
                start <= auth_reader.current(),
                goal == analysis(
                    ab,
                    at,
                    cursor_of(*auth_reader),
                    tb,
                    tt,
                    cursor_of(*test_reader),
                    frame_index,
                ),
            decreases at - auth_reader.current(),
        {
            let auth_frame = match auth_reader.next_frame() {
                Ok(Some(f)) => f,
                Ok(None) => {
                    let tr = test_reader.next_frame();
                    return if let Ok(Some(_)) = tr {
                        Some(
                            DivergenceReport {
                                frame_index,
                                reason: DivergenceReason::LengthMismatch {
                                    expected_frames: auth_reader.total_frames,
                                    actual_frames: test_reader.total_frames,
                                },
                            },
                        )
                    } else {
                        None
                    };
                },
                Err(_) => {
                    return Some(
                        DivergenceReport { frame_index, reason: DivergenceReason::DecodeFailed },
                    );
                },
            };
            let test_frame = match test_reader.next_frame() {
                Ok(Some(f)) => f,
                Ok(None) => {
                    return Some(
                        DivergenceReport {
                            frame_index,
                            reason: DivergenceReason::LengthMismatch {
                                expected_frames: auth_reader.total_frames,
                                actual_frames: test_reader.total_frames,
                            },
                        },
                    );
                },
                Err(_) => {
                    return Some(
                        DivergenceReport { frame_index, reason: DivergenceReason::DecodeFailed },
                    );
                },
            };
            if !bytes_eq(auth_frame.raw_payload.as_slice(), test_frame.raw_payload.as_slice()) {
                return Some(
                    Self::compare_payloads(
                        frame_index,
                        auth_frame.raw_payload.as_slice(),
                        test_frame.raw_payload.as_slice(),
                    ),
                );
            }
            if !auth_frame.expected_output_state.ct_eq(&test_frame.expected_output_state) {
                return Some(
                    DivergenceReport {
                        frame_index,
                        reason: DivergenceReason::CommitmentMismatch {
                            expected: auth_frame.expected_output_state,
                            actual: test_frame.expected_output_state,
                        },
                    },
                );
            }
            frame_index = frame_index + 1;
        }
    }
}

/// Whether a recorded session can be serialized: its frame count and every
/// payload length fit a `u32`.
pub open spec fn recording_fits(r: ReplayRecorder) -> bool {
    &&& r.frames@.len() <= u32::MAX
    &&& forall|i: int| 0 <= i < r.frames@.len() ==> #[trigger] bytes_fit(r.frames@[i].raw_payload@)
}

/// Serializes two recorded sessions, reads them back, and analyzes them in
/// lockstep: the result is the first divergence between their frames.
///
/// # Errors
/// Returns `LengthOverflow` when a session cannot be serialized, and
/// `InvalidMagic` when a session's header does not carry the replay magic.
pub fn compare_recordings(auth: &ReplayRecorder, test: &ReplayRecorder) -> (r: Result<
    Option<DivergenceReport>,
    ReplayError,
>)
    ensures
        !recording_fits(*auth) || !recording_fits(*test) ==> r == Err::<
            Option<DivergenceReport>,
            ReplayError,
        >(ReplayError::LengthOverflow),
        recording_fits(*auth) && recording_fits(*test) && (auth.header.magic@ != REPLAY_MAGIC@
            || test.header.magic@ != REPLAY_MAGIC@) ==> r == Err::<
            Option<DivergenceReport>,
            ReplayError,
        >(ReplayError::InvalidMagic),
        recording_fits(*auth) && recording_fits(*test) && auth.header.magic@ == REPLAY_MAGIC@
            && test.header.magic@ == REPLAY_MAGIC@ ==> (r matches Ok(x) && match x {
            Some(rep) => first_divergence_from(
                frames_view(auth.frames@),
                frames_view(test.frames@),
                0,
            ) == Some(rep@),
            None => first_divergence_from(
                frames_view(auth.frames@),
                frames_view(test.frames@),
                0,
            ) is None,
        }),
{
    let a_bytes = match auth.serialize() {
        Ok(b) => b,
        Err(e) => return Err(e),
    };
    let b_bytes = match test.serialize() {
        Ok(b) => b,
        Err(e) => return Err(e),
    };
    let ghost fa = frames_view(auth.frames@);
    let ghost fb = frames_view(test.frames@);
    proof {
        assert forall|j: int| 0 <= j < fa.len() implies frame_v_wf(#[trigger] fa[j]) by {
            assert(fa[j] == auth.frames@[j]@);
            assert(bytes_fit(auth.frames@[j].raw_payload@));
        }
        assert forall|j: int| 0 <= j < fb.len() implies frame_v_wf(#[trigger] fb[j]) by {
            assert(fb[j] == test.frames@[j]@);
            assert(bytes_fit(test.frames@[j].raw_payload@));
        }
        lemma_replay_roundtrip(auth.header@, fa);
        lemma_replay_roundtrip(test.header@, fb);
        lemma_analysis_finds_first_divergence(auth.header@, fa, test.header@, fb);
    }
    let mut ra = match ReplayReader::new(a_bytes.as_slice()) {
        Ok(x) => x,
        Err(e) => return Err(e),
    };
    let mut rb = match ReplayReader::new(b_bytes.as_slice()) {
        Ok(x) => x,
        Err(e) => return Err(e),
    };
    assert(cursor_of(ra) == Cursor { pos: 48, current: 0 });
    assert(cursor_of(rb) == Cursor { pos: 48, current: 0 });
    Ok(DivergenceAnalyzer::analyze(&mut ra, &mut rb))
}

// ---------------------------------------------------------------------------
// Laws
// ---------------------------------------------------------------------------

/// The first divergence between two sequences of frames, looking from frame
/// `i` on: the first frame whose payloads differ (explained by
/// `payload_divergence`) or, with equal payloads, whose expected states
/// differ; or a length mismatch at the end of the shorter sequence.
pub open spec fn first_divergence_from(
    fa: Seq<ReplayFrameV>,
    fb: Seq<ReplayFrameV>,
    i: int,
) -> Option<DivergenceReportV>
    decreases fa.len() - i,
{
    let lengths = DivergenceReasonV::LengthMismatch {
        expected_frames: fa.len() as u32,
        actual_frames: fb.len() as u32,
    };
    if i >= fa.len() {
        if i < fb.len() {
            report(i as u32, lengths)
        } else {
            None
        }
    } else if i >= fb.len() {
        report(i as u32, lengths)
    } else if fa[i].raw_payload != fb[i].raw_payload {
        report(i as u32, payload_divergence(fa[i].raw_payload, fb[i].raw_payload))
    } else if fa[i].expected_output_state != fb[i].expected_output_state {
        report(
            i as u32,
            DivergenceReasonV::CommitmentMismatch {
                expected: fa[i].expected_output_state,
                actual: fb[i].expected_output_state,
            },
        )
    } else {
        first_divergence_from(fa, fb, i + 1)
    }
}

pub open spec fn frames_wf(fs: Seq<ReplayFrameV>) -> bool {
    forall|j: int| 0 <= j < fs.len() ==> frame_v_wf(#[trigger] fs[j])
}

proof fn lemma_analysis_from(
    sa: Seq<u8>,
    fa: Seq<ReplayFrameV>,
    sb: Seq<u8>,
    fb: Seq<ReplayFrameV>,
    i: int,
)
    requires
        frames_wf(fa),
        frames_wf(fb),
        holds_at(sa, 48, enc_frames(fa)),
        holds_at(sb, 48, enc_frames(fb)),
        fa.len() <= u32::MAX,
        fb.len() <= u32::MAX,
        0 <= i <= fa.len(),
        i <= fb.len(),
    ensures
        analysis(
            sa,
            fa.len() as u32,
            Cursor { pos: frame_pos(48, fa, i), current: i as u32 },
            sb,
            fb.len() as u32,
            Cursor { pos: frame_pos(48, fb, i), current: i as u32 },
            i as u32,
        ).0 == first_divergence_from(fa, fb, i),
    decreases fa.len() - i,
{
    if i < fa.len() {
        lemma_frame_at(sa, 48, fa, i);
        if i < fb.len() {
            lemma_frame_at(sb, 48, fb, i);
            if fa[i].raw_payload == fb[i].raw_payload && fa[i].expected_output_state
                == fb[i].expected_output_state {
                lemma_analysis_from(sa, fa, sb, fb, i + 1);
            }
        }
    } else if i < fb.len() {
        lemma_frame_at(sb, 48, fb, i);
    }
}

/// Divergence analysis of two recorded sessions, read from their first
/// frames, reports the first frame at which they differ: the first frame
/// whose payloads differ, or whose expected output states differ, or the end
/// of the shorter session; and nothing when the sessions hold the same
/// frames.
pub proof fn lemma_analysis_finds_first_divergence(
    ha: ReplayHeaderV,
    fa: Seq<ReplayFrameV>,
    hb: ReplayHeaderV,
    fb: Seq<ReplayFrameV>,
)
    requires
        header_v_wf(ha),
        header_v_wf(hb),
        frames_wf(fa),
        frames_wf(fb),
        fa.len() <= u32::MAX,
        fb.len() <= u32::MAX,
    ensures
        analysis(
            replay_bytes(ha, fa),
            fa.len() as u32,
            Cursor { pos: 48, current: 0 },
            replay_bytes(hb, fb),
            fb.len() as u32,
            Cursor { pos: 48, current: 0 },
            0,
        ).0 == first_divergence_from(fa, fb, 0),
{
    lemma_frames_start(ha, fa);
    lemma_frames_start(hb, fb);
    assert(fa.take(0) =~= Seq::<ReplayFrameV>::empty());
    assert(fb.take(0) =~= Seq::<ReplayFrameV>::empty());
    lemma_analysis_from(replay_bytes(ha, fa), fa, replay_bytes(hb, fb), fb, 0);
}

/// A recorded session's frames start 48 bytes in.
proof fn lemma_frames_start(h: ReplayHeaderV, fs: Seq<ReplayFrameV>)
    requires
        header_v_wf(h),
    ensures
        holds_at(replay_bytes(h, fs), 48, enc_frames(fs)),
{
    let s = replay_bytes(h, fs);
    lemma_enc_u32_len(h.version);
    lemma_enc_u32_len(fs.len() as u32);
    lemma_holds_at_whole(s);
    lemma_holds_at_split(s, 0, enc_header(h) + enc_u32(fs.len() as u32), enc_frames(fs));
}

/// Two sessions that hold the same frames do not diverge.
pub proof fn lemma_same_frames_do_not_diverge(fs: Seq<ReplayFrameV>, i: int)
    requires
        0 <= i,
    ensures
        first_divergence_from(fs, fs, i) is None,
    decreases fs.len() - i,
{
    if i < fs.len() {
        lemma_same_frames_do_not_diverge(fs, i + 1);
    }
}

/// When two sessions carry the same payloads and their expected states
/// first differ at frame `k`, the first divergence is a commitment mismatch
/// at `k`, naming both states.
pub proof fn lemma_divergence_at_first_state_change(
    fa: Seq<ReplayFrameV>,
    fb: Seq<ReplayFrameV>,
    k: int,
    i: int,
)
    requires
        fa.len() == fb.len(),
        0 <= i <= k < fa.len(),
        forall|j: int| 0 <= j < fa.len() ==> #[trigger] fa[j].raw_payload == fb[j].raw_payload,
        forall|j: int|
            0 <= j < k ==> #[trigger] fa[j].expected_output_state == fb[j].expected_output_state,
        fa[k].expected_output_state != fb[k].expected_output_state,
    ensures
        first_divergence_from(fa, fb, i) == report(
            k as u32,
            DivergenceReasonV::CommitmentMismatch {
                expected: fa[k].expected_output_state,
                actual: fb[k].expected_output_state,
            },
        ),
    decreases k - i,
{
    assert(fa[i].raw_payload == fb[i].raw_payload);
    if i < k {
        assert(fa[i].expected_output_state == fb[i].expected_output_state);
        lemma_divergence_at_first_state_change(fa, fb, k, i + 1);
    }
}

/// Two differing transition payloads are told apart by epoch first, then
/// by authority, then by input state: whatever else differs, different
/// epochs are reported as an epoch mismatch naming both; with equal epochs,
/// different authorities as an authority mismatch naming both; with both
/// equal, different input states as a parent mismatch naming both.
pub proof fn lemma_transition_divergence_order(auth: Seq<u8>, test: Seq<u8>)
    requires
        decode_message(auth) matches Some(a) && a.payload is Transition,
        decode_message(test) matches Some(t) && t.payload is Transition,
    ensures
        ({
            let x = decode_message(auth).unwrap().payload->Transition_0.transition;
            let y = decode_message(test).unwrap().payload->Transition_0.transition;
            &&& x.epoch_id != y.epoch_id ==> payload_divergence(auth, test)
                == (DivergenceReasonV::EpochMismatch { expected: x.epoch_id, actual: y.epoch_id })
            &&& x.epoch_id == y.epoch_id && x.authority_id != y.authority_id ==> payload_divergence(
                auth,
                test,
            ) == (DivergenceReasonV::AuthorityMismatch {
                expected: x.authority_id,
                actual: y.authority_id,
            })
            &&& x.epoch_id == y.epoch_id && x.authority_id == y.authority_id && x.input_state
                != y.input_state ==> payload_divergence(auth, test)
                == (DivergenceReasonV::ParentMismatch {
                expected: x.input_state,
                actual: y.input_state,
            })
            &&& x.epoch_id == y.epoch_id && x.authority_id == y.authority_id && x.input_state
                == y.input_state ==> payload_divergence(auth, test)
                == DivergenceReasonV::PayloadMismatch
        }),
{
}

} // verus!
