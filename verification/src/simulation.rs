//! A deterministic multi-server session: server nodes record the same
//! signed transitions, one of them computes a wrong state at a chosen epoch,
//! and comparing the recordings finds it.
use crate::authority::{
    ed25519_accepts, ed25519_key_decodes, ed25519_public_key, ed25519_public_key_of, ed25519_sign,
    ed25519_signature, AuthorityId,
};
use crate::commitment::{blake3_digest, StateCommitment, TRANSITION_DOMAIN_V1};
use crate::epoch::EpochId;
use crate::evidence::{EvidenceId, EvidenceType, ExecutionEvidence};
use crate::protocol::format::enc_message;
use crate::protocol::{LaurnMessage, LaurnMessagePayload, MessageV, PayloadV, TransitionMessage, TransitionMessageV};
use crate::replay::divergence::{
    first_divergence_from, lemma_divergence_at_first_state_change, report, DivergenceReasonV,
};
use crate::replay::{frames_view, ReplayFrameV, ReplayHeaderV, ReplayRecorder, REPLAY_MAGIC};
use crate::transition::{Transition, TransitionCommitment, TransitionId, TransitionMetadata, TransitionV};
use crate::verification::{signing_bytes, transition_signing_bytes};
use crate::version::ProtocolVersion;
use vstd::prelude::*;

verus! {

/// The epoch at which the second server computes a wrong state.
pub const DESYNC_EPOCH: u8 = 75;

/// The 32 bytes that `Rng::fill` writes from a
/// `rand::rngs::StdRng` seeded with `seed_from_u64(seed)`.
pub uninterp spec fn std_rng_secret(seed: u64) -> Seq<u8>;

/// Fills a 32-byte secret from `rand::rngs::StdRng::seed_from_u64(seed)`
/// with `Rng::fill`. The seeded generator is deterministic (its output is
/// a function of the seed in a given build of `rand`), so the contract
/// names the result as that of the seed; the bytes themselves are not
/// stated.
#[verifier::external_body]
fn seeded_secret(seed: u64) -> (r: [u8; 32])
    ensures
        r@ == std_rng_secret(seed),
{
    let mut rng: rand::rngs::StdRng = rand::SeedableRng::seed_from_u64(seed);
    let mut secret = [0u8; 32];
    rand::Rng::fill(&mut rng, &mut secret);
    secret
}

/// A server that signs transitions and records the session it runs.
pub struct ServerNode {
    pub signing_secret: [u8; 32],
    pub authority_id: AuthorityId,
    pub state_commitment: StateCommitment,
    pub replay_recorder: ReplayRecorder,
}

pub open spec fn zeros(n: nat) -> Seq<u8> {
    Seq::new(n, |i: int| 0u8)
}

/// The state every node starts from, and the header of its recording.
pub open spec fn initial_header() -> ReplayHeaderV {
    ReplayHeaderV { magic: REPLAY_MAGIC@, version: 1, initial_state: zeros(32) }
}

impl ServerNode {
    /// The node's secret signing key.
    pub open spec fn secret(&self) -> Seq<u8> {
        self.signing_secret@
    }

    /// A node whose key is drawn from a generator seeded with `seed`, at the
    /// all-zero state, with an empty recording.
    pub fn new(seed: u64) -> (r: Self)
        ensures
            r.secret() == std_rng_secret(seed),
            r.secret().len() == 32,
            ed25519_key_decodes(r.authority_id@),
            r.authority_id@ == ed25519_public_key(r.secret()),
            r.state_commitment@ == zeros(32),
            r.replay_recorder.header@ == initial_header(),
            r.replay_recorder.frames@.len() == 0,
    {
        let signing_secret = seeded_secret(seed);
        let authority_id = AuthorityId(ed25519_public_key_of(&signing_secret));
        let zero: [u8; 32] = [0u8; 32];
        assert(zero@ =~= zeros(32));
        let state_commitment = StateCommitment(zero);
        let replay_recorder = ReplayRecorder::new(state_commitment);
        proof {
            assert(REPLAY_MAGIC@ =~= replay_recorder.header.magic@);
        }
        ServerNode { signing_secret, authority_id, state_commitment, replay_recorder }
    }

    /// Signs `msg` with the node's key.
    pub fn sign(&self, msg: &[u8]) -> (r: [u8; 64])
        ensures
            r@ == ed25519_signature(self.secret(), msg@),
            ed25519_accepts(ed25519_public_key(self.secret()), msg@, r@),
    {
        ed25519_sign(&self.signing_secret, msg)
    }
}

/// The payload of an epoch: the epoch number, then 31 zero bytes.
pub open spec fn epoch_payload_spec(epoch_idx: u8) -> Seq<u8> {
    seq![epoch_idx] + zeros(31)
}

/// The state every correct node reaches at an epoch: the epoch number,
/// 0xAA, then 30 zero bytes.
pub open spec fn reference_state_spec(epoch_idx: u8) -> Seq<u8> {
    seq![epoch_idx, 0xAAu8] + zeros(30)
}

/// The wrong state the second node reaches at the desync epoch: the epoch
/// number, 0xBB, then 30 zero bytes.
pub open spec fn desynced_state_spec(epoch_idx: u8) -> Seq<u8> {
    seq![epoch_idx, 0xBBu8] + zeros(30)
}

fn state_with(epoch_idx: u8, tag: u8) -> (r: StateCommitment)
    ensures
        r@ == seq![epoch_idx, tag] + zeros(30),
{
    let mut h = [0u8; 32];
    h[0] = epoch_idx;
    h[1] = tag;
    assert(h@ =~= seq![epoch_idx, tag] + zeros(30));
    StateCommitment(h)
}

/// The transition of an epoch, signed by the first node.
pub open spec fn epoch_transition_v(
    epoch_idx: u8,
    authority: Seq<u8>,
    input_state: Seq<u8>,
) -> TransitionV {
    TransitionV {
        id: epoch_idx as u64,
        authority_id: authority,
        epoch_id: Seq::new(32, |i: int| epoch_idx),
        timestamp_ms: (epoch_idx as u64 * 1000) as u64,
        input_state,
        output_state: reference_state_spec(epoch_idx),
        payload_commitment: blake3_digest(TRANSITION_DOMAIN_V1@ + epoch_payload_spec(epoch_idx)),
    }
}

/// The class every session transition is submitted under.
pub const SESSION_CLASS: u32 = 1;

/// The recorded bytes of an epoch's message: the transition, submitted
/// under `SESSION_CLASS` and signed over its signed representation.
pub open spec fn epoch_message_bytes(epoch_idx: u8, secret: Seq<u8>, t: TransitionV) -> Seq<u8> {
    enc_message(
        MessageV {
            version: ProtocolVersion { major: 0, minor: 1, patch: 0 },
            payload: PayloadV::Transition(
                TransitionMessageV {
                    transition: t,
                    transition_class: SESSION_CLASS,
                    raw_payload: epoch_payload_spec(epoch_idx),
                    signature: ed25519_signature(secret, signing_bytes(t, SESSION_CLASS)),
                },
            ),
        },
    )
}

/// The state a node is at when epoch `epoch_idx` of a session begins: the
/// state it started from for the first epoch, else the reference state of
/// the epoch before.
pub open spec fn epoch_input_state(epoch_idx: int, start: Seq<u8>) -> Seq<u8> {
    if epoch_idx <= 1 {
        start
    } else {
        reference_state_spec((epoch_idx - 1) as u8)
    }
}

/// The frame a correct node records at epoch `epoch_idx` of a session run
/// by a first node with key `secret` and identifier `authority`, started
/// from state `start`.
pub open spec fn session_frame(
    epoch_idx: int,
    secret: Seq<u8>,
    authority: Seq<u8>,
    start: Seq<u8>,
) -> ReplayFrameV {
    let t = epoch_transition_v(epoch_idx as u8, authority, epoch_input_state(epoch_idx, start));
    ReplayFrameV {
        raw_payload: epoch_message_bytes(epoch_idx as u8, secret, t),
        expected_output_state: reference_state_spec(epoch_idx as u8),
    }
}

/// The frames a correct node records over the first `n` epochs of a
/// session.
pub open spec fn session_frames(
    n: nat,
    secret: Seq<u8>,
    authority: Seq<u8>,
    start: Seq<u8>,
) -> Seq<ReplayFrameV> {
    Seq::new(n, |j: int| session_frame(j + 1, secret, authority, start))
}

/// The frames the second node records over a session: those of a correct
/// node, but for the wrong state at the desync epoch.
pub open spec fn desynced_session_frames(
    secret: Seq<u8>,
    authority: Seq<u8>,
    start: Seq<u8>,
) -> Seq<ReplayFrameV> {
    let good = session_frames(DESYNC_EPOCH as nat, secret, authority, start);
    good.update(
        DESYNC_EPOCH - 1,
        ReplayFrameV {
            expected_output_state: desynced_state_spec(DESYNC_EPOCH),
            ..good[DESYNC_EPOCH - 1]
        },
    )
}

/// What an epoch produced, for reporting.
pub struct EpochOutcome {
    pub epoch_id: EpochId,
    pub payload_commitment: TransitionCommitment,
    pub reference_output_state: StateCommitment,
    pub s2_output_state: StateCommitment,
}

/// Runs one epoch: the first node builds and signs the epoch's transition
/// from its current state; all three nodes record the message, the first
/// and third with the reference state and the second with the state it
/// computed, which is wrong when `desync` holds; each node moves to the
/// state it recorded.
pub fn run_epoch(
    s1: &mut ServerNode,
    s2: &mut ServerNode,
    s3: &mut ServerNode,
    epoch_idx: u8,
    desync: bool,
) -> (r: EpochOutcome)
    ensures
        ({
            let t = epoch_transition_v(
                epoch_idx,
                old(s1).authority_id@,
                old(s1).state_commitment@,
            );
            let bytes = epoch_message_bytes(epoch_idx, old(s1).secret(), t);
            let good = reference_state_spec(epoch_idx);
            let s2_state = if desync {
                desynced_state_spec(epoch_idx)
            } else {
                good
            };
            &&& frames_view(final(s1).replay_recorder.frames@) == frames_view(
                old(s1).replay_recorder.frames@,
            ).push(ReplayFrameV { raw_payload: bytes, expected_output_state: good })
            &&& frames_view(final(s3).replay_recorder.frames@) == frames_view(
                old(s3).replay_recorder.frames@,
            ).push(ReplayFrameV { raw_payload: bytes, expected_output_state: good })
            &&& frames_view(final(s2).replay_recorder.frames@) == frames_view(
                old(s2).replay_recorder.frames@,
            ).push(ReplayFrameV { raw_payload: bytes, expected_output_state: s2_state })
            &&& final(s1).state_commitment@ == good
            &&& final(s3).state_commitment@ == good
            &&& final(s2).state_commitment@ == s2_state
            &&& r.epoch_id@ == t.epoch_id
            &&& r.payload_commitment@ == t.payload_commitment
            &&& r.reference_output_state@ == good
            &&& r.s2_output_state@ == s2_state
        }),
        final(s1).secret() == old(s1).secret(),
        final(s2).secret() == old(s2).secret(),
        final(s3).secret() == old(s3).secret(),
        final(s1).authority_id == old(s1).authority_id,
        final(s2).authority_id == old(s2).authority_id,
        final(s3).authority_id == old(s3).authority_id,
        final(s1).replay_recorder.header == old(s1).replay_recorder.header,
        final(s2).replay_recorder.header == old(s2).replay_recorder.header,
        final(s3).replay_recorder.header == old(s3).replay_recorder.header,
{
    let mut epoch_bytes = [0u8; 32];
    let mut k: usize = 0;
    while k < 32
        invariant
            k <= 32,
            epoch_bytes@.len() == 32,
            forall|j: int| 0 <= j < k ==> epoch_bytes@[j] == epoch_idx,
        decreases 32 - k,
    {
        epoch_bytes[k] = epoch_idx;
        k = k + 1;
    }
    assert(epoch_bytes@ =~= Seq::new(32, |i: int| epoch_idx));
    let current_epoch = EpochId(epoch_bytes);
    let mut raw_payload: Vec<u8> = Vec::new();
    raw_payload.push(epoch_idx);
    let mut z: usize = 0;
    while z < 31
        invariant
            z <= 31,
            raw_payload@ =~= seq![epoch_idx] + zeros(z as nat),
        decreases 31 - z,
    {
        raw_payload.push(0u8);
        z = z + 1;
    }
    let payload_commitment = TransitionCommitment::compute(raw_payload.as_slice());
    let input_state = s1.state_commitment;
    let reference_output_state = state_with(epoch_idx, 0xAA);
    let s2_output_state = if desync {
        state_with(epoch_idx, 0xBB)
    } else {
        reference_output_state
    };
    let transition = Transition {
        id: TransitionId(epoch_idx as u64),
        metadata: TransitionMetadata {
            authority_id: s1.authority_id,
            epoch_id: current_epoch,
            timestamp_ms: epoch_idx as u64 * 1000,
        },
        input_state,
        output_state: reference_output_state,
        payload_commitment,
    };
    let signed = transition_signing_bytes(&transition, SESSION_CLASS);
    let signature = s1.sign(signed.as_slice());
    let msg = LaurnMessage {
        version: ProtocolVersion::current(),
        payload: LaurnMessagePayload::Transition(
            TransitionMessage { transition, transition_class: SESSION_CLASS, raw_payload, signature },
        ),
    };
    let msg_bytes = msg.try_to_vec().unwrap();
    let ghost old1 = s1.replay_recorder.frames@;
    let ghost old2 = s2.replay_recorder.frames@;
    let ghost old3 = s3.replay_recorder.frames@;
    s1.replay_recorder.add_frame(msg_bytes.clone(), reference_output_state);
    s3.replay_recorder.add_frame(msg_bytes.clone(), reference_output_state);
    s2.replay_recorder.add_frame(msg_bytes, s2_output_state);
    proof {
        assert(frames_view(s1.replay_recorder.frames@) =~= frames_view(old1).push(
            s1.replay_recorder.frames@.last()@,
        ));
        assert(frames_view(s2.replay_recorder.frames@) =~= frames_view(old2).push(
            s2.replay_recorder.frames@.last()@,
        ));
        assert(frames_view(s3.replay_recorder.frames@) =~= frames_view(old3).push(
            s3.replay_recorder.frames@.last()@,
        ));
    }
    s1.state_commitment = reference_output_state;
    s3.state_commitment = reference_output_state;
    s2.state_commitment = s2_output_state;
    EpochOutcome { epoch_id: current_epoch, payload_commitment, reference_output_state, s2_output_state }
}

/// The evidence the first node issues for the transition it evaluated at
/// the desync epoch: server-authoritative, over a 32-byte zero attestation,
/// signed with the node's key.
pub fn issue_evidence(node: &ServerNode, outcome: &EpochOutcome, epoch_idx: u8) -> (r:
    ExecutionEvidence)
    ensures
        r.issuer == node.authority_id,
        r.epoch_id == outcome.epoch_id,
        r.timestamp_ms == epoch_idx as u64 * 1000,
        r.transition_commitment == outcome.payload_commitment,
        r.evidence_type == EvidenceType::ServerAuthoritative,
        r.raw_attestation@ == zeros(32),
        r.id.0@ == Seq::new(32, |i: int| 1u8),
        r.signature@ == ed25519_signature(node.secret(), r.payload_spec()),
        ed25519_accepts(ed25519_public_key(node.secret()), r.payload_spec(), r.signature@),
{
    let mut raw_attestation: Vec<u8> = Vec::new();
    let mut z: usize = 0;
    while z < 32
        invariant
            z <= 32,
            raw_attestation@ =~= zeros(z as nat),
        decreases 32 - z,
    {
        raw_attestation.push(0u8);
        z = z + 1;
    }
    let id = [1u8; 32];
    assert(id@ =~= Seq::new(32, |i: int| 1u8));
    let mut evidence = ExecutionEvidence {
        id: EvidenceId(id),
        evidence_type: EvidenceType::ServerAuthoritative,
        issuer: node.authority_id,
        epoch_id: outcome.epoch_id,
        timestamp_ms: epoch_idx as u64 * 1000,
        transition_commitment: outcome.payload_commitment,
        raw_attestation,
        signature: [0u8; 64],
    };
    let payload = evidence.signature_payload();
    evidence.signature = node.sign(payload.as_slice());
    evidence
}

/// Runs the session up to the desync epoch: the epochs before it in
/// agreement, then the desync epoch, at which the second node records a
/// wrong state. The first and third nodes record the same frames, those of
/// `session_frames`, and end at the reference state of the desync epoch;
/// the second records `desynced_session_frames` and ends at the desynced
/// state. When the first two nodes start from the same recording, the
/// first divergence between their recordings is the commitment mismatch at
/// the desync epoch's frame.
pub fn run_session(s1: &mut ServerNode, s2: &mut ServerNode, s3: &mut ServerNode) -> (r:
    EpochOutcome)
    requires
        frames_view(old(s1).replay_recorder.frames@) == frames_view(
            old(s2).replay_recorder.frames@,
        ),
        old(s1).replay_recorder.frames@.len() + DESYNC_EPOCH <= u32::MAX,
    ensures
        final(s1).replay_recorder.frames@.len() == old(s1).replay_recorder.frames@.len()
            + DESYNC_EPOCH,
        final(s2).replay_recorder.frames@.len() == old(s2).replay_recorder.frames@.len()
            + DESYNC_EPOCH,
        frames_view(final(s1).replay_recorder.frames@) == frames_view(
            old(s1).replay_recorder.frames@,
        ) + session_frames(
            DESYNC_EPOCH as nat,
            old(s1).secret(),
            old(s1).authority_id@,
            old(s1).state_commitment@,
        ),
        frames_view(final(s3).replay_recorder.frames@) == frames_view(
            old(s3).replay_recorder.frames@,
        ) + session_frames(
            DESYNC_EPOCH as nat,
            old(s1).secret(),
            old(s1).authority_id@,
            old(s1).state_commitment@,
        ),
        frames_view(final(s2).replay_recorder.frames@) == frames_view(
            old(s2).replay_recorder.frames@,
        ) + desynced_session_frames(
            old(s1).secret(),
            old(s1).authority_id@,
            old(s1).state_commitment@,
        ),
        final(s1).state_commitment@ == reference_state_spec(DESYNC_EPOCH),
        final(s3).state_commitment@ == reference_state_spec(DESYNC_EPOCH),
        final(s2).state_commitment@ == desynced_state_spec(DESYNC_EPOCH),
        r.reference_output_state@ == reference_state_spec(DESYNC_EPOCH),
        r.s2_output_state@ == desynced_state_spec(DESYNC_EPOCH),
        first_divergence_from(
            frames_view(final(s1).replay_recorder.frames@),
            frames_view(final(s2).replay_recorder.frames@),
            0,
        ) == report(
            (old(s1).replay_recorder.frames@.len() + DESYNC_EPOCH - 1) as u32,
            DivergenceReasonV::CommitmentMismatch {
                expected: reference_state_spec(DESYNC_EPOCH),
                actual: desynced_state_spec(DESYNC_EPOCH),
            },
        ),
        final(s1).replay_recorder.header == old(s1).replay_recorder.header,
        final(s2).replay_recorder.header == old(s2).replay_recorder.header,
        final(s1).authority_id == old(s1).authority_id,
        final(s1).secret() == old(s1).secret(),
{
    let ghost base = old(s1).replay_recorder.frames@.len();
    let ghost secret = old(s1).secret();
    let ghost authority = old(s1).authority_id@;
    let ghost start = old(s1).state_commitment@;
    let ghost g1 = frames_view(old(s1).replay_recorder.frames@);
    let ghost g2 = frames_view(old(s2).replay_recorder.frames@);
    let ghost g3 = frames_view(old(s3).replay_recorder.frames@);
    assert(g1 =~= g1 + session_frames(0, secret, authority, start));
    assert(g2 =~= g2 + session_frames(0, secret, authority, start));
    assert(g3 =~= g3 + session_frames(0, secret, authority, start));
    assert(frames_view(s1.replay_recorder.frames@).len() == base);
    assert(frames_view(s2.replay_recorder.frames@).len() == s2.replay_recorder.frames@.len());
    let mut epoch_idx: u8 = 1;
    while epoch_idx < DESYNC_EPOCH
        invariant
            1 <= epoch_idx <= DESYNC_EPOCH,
            s1.secret() == old(s1).secret(),
            s1.authority_id == old(s1).authority_id,
            s1.replay_recorder.header == old(s1).replay_recorder.header,
            s2.replay_recorder.header == old(s2).replay_recorder.header,
            base == old(s1).replay_recorder.frames@.len(),
            base + DESYNC_EPOCH <= u32::MAX,
            s1.replay_recorder.frames@.len() == base + epoch_idx - 1,
            s2.replay_recorder.frames@.len() == base + epoch_idx - 1,
            secret == old(s1).secret(),
            authority == old(s1).authority_id@,
            s1.state_commitment@ == epoch_input_state(epoch_idx as int, start),
            frames_view(s1.replay_recorder.frames@) == g1 + session_frames(
                (epoch_idx - 1) as nat,
                secret,
                authority,
                start,
            ),
            frames_view(s2.replay_recorder.frames@) == g2 + session_frames(
                (epoch_idx - 1) as nat,
                secret,
                authority,
                start,
            ),
            frames_view(s3.replay_recorder.frames@) == g3 + session_frames(
                (epoch_idx - 1) as nat,
                secret,
                authority,
                start,
            ),
            forall|j: int|
                0 <= j < base + epoch_idx - 1 ==> #[trigger] frames_view(
                    s1.replay_recorder.frames@,
                )[j] == frames_view(s2.replay_recorder.frames@)[j],
        decreases DESYNC_EPOCH - epoch_idx,
    {
        let ghost f1 = frames_view(s1.replay_recorder.frames@);
        let ghost f2 = frames_view(s2.replay_recorder.frames@);
        assert(f1.len() == s1.replay_recorder.frames@.len());
        assert(f2.len() == s2.replay_recorder.frames@.len());
        run_epoch(s1, s2, s3, epoch_idx, false);
        proof {
            let n1 = frames_view(s1.replay_recorder.frames@);
            let n2 = frames_view(s2.replay_recorder.frames@);
            let sf = session_frames((epoch_idx - 1) as nat, secret, authority, start);
            let sg = session_frames(epoch_idx as nat, secret, authority, start);
            assert(sg =~= sf.push(session_frame(epoch_idx as int, secret, authority, start)));
            assert(g1 + sg =~= (g1 + sf).push(session_frame(epoch_idx as int, secret, authority, start)));
            assert(g2 + sg =~= (g2 + sf).push(session_frame(epoch_idx as int, secret, authority, start)));
            assert(g3 + sg =~= (g3 + sf).push(session_frame(epoch_idx as int, secret, authority, start)));
            assert(n1.len() == s1.replay_recorder.frames@.len());
            assert(n2.len() == s2.replay_recorder.frames@.len());
            assert forall|j: int| 0 <= j < base + epoch_idx implies #[trigger] n1[j] == n2[j] by {
                if j < base + epoch_idx - 1 {
                    assert(n1[j] == f1[j]);
                    assert(n2[j] == f2[j]);
                }
            }
        }
        epoch_idx = epoch_idx + 1;
    }
    let ghost f1 = frames_view(s1.replay_recorder.frames@);
    let ghost f2 = frames_view(s2.replay_recorder.frames@);
    assert(f1.len() == s1.replay_recorder.frames@.len());
    assert(f2.len() == s2.replay_recorder.frames@.len());
    let outcome = run_epoch(s1, s2, s3, DESYNC_EPOCH, true);
    proof {
        let sf = session_frames((DESYNC_EPOCH - 1) as nat, secret, authority, start);
        let sg = session_frames(DESYNC_EPOCH as nat, secret, authority, start);
        let fr = session_frame(DESYNC_EPOCH as int, secret, authority, start);
        assert(sg =~= sf.push(fr));
        assert(g1 + sg =~= (g1 + sf).push(fr));
        assert(g3 + sg =~= (g3 + sf).push(fr));
        assert(g2 + desynced_session_frames(secret, authority, start) =~= (g2 + sf).push(
            ReplayFrameV { expected_output_state: desynced_state_spec(DESYNC_EPOCH), ..fr },
        ));
        let n1 = frames_view(s1.replay_recorder.frames@);
        let n2 = frames_view(s2.replay_recorder.frames@);
        assert(n1.len() == s1.replay_recorder.frames@.len());
        assert(n2.len() == s2.replay_recorder.frames@.len());
        let k = base + DESYNC_EPOCH - 1;
        assert forall|j: int| 0 <= j < n1.len() implies #[trigger] n1[j].raw_payload
            == n2[j].raw_payload by {
            if j < k {
                assert(n1[j] == f1[j]);
                assert(n2[j] == f2[j]);
            }
        }
        assert forall|j: int| 0 <= j < k implies #[trigger] n1[j].expected_output_state
            == n2[j].expected_output_state by {
            assert(n1[j] == f1[j]);
            assert(n2[j] == f2[j]);
        }
        assert(reference_state_spec(DESYNC_EPOCH)[1] != desynced_state_spec(DESYNC_EPOCH)[1]);
        lemma_divergence_at_first_state_change(n1, n2, k, 0);
    }
    outcome
}

} // verus!
