//! Recording and reading replay sessions: a header followed by frames, each
//! frame holding a raw payload and the output state expected after it.
use crate::commitment::StateCommitment;
use crate::wire::{
    bytes_fit, enc_bytes, enc_u32, holds_at, lemma_enc_u32_len, lemma_holds_at_split,
    lemma_holds_at_whole, lemma_p_bytes,
    lemma_p_fixed, lemma_p_u32, p_bytes, p_fixed, p_u32, read_arr32, read_bytes, read_u32,
    write_bytes, write_raw, write_u32,
};
use vstd::prelude::*;

pub mod divergence;

verus! {

/// The magic bytes of a replay: "LAURNRPL".
pub const REPLAY_MAGIC: [u8; 8] = [76, 65, 85, 82, 78, 82, 80, 76];

/// The replay format version.
pub const REPLAY_VERSION: u32 = 1;

#[derive(Debug, Clone, Copy, PartialEq, Eq)]
pub struct ReplayHeader {
    pub magic: [u8; 8],
    pub version: u32,
    pub initial_state: StateCommitment,
}

/// The content of a replay header.
pub struct ReplayHeaderV {
    pub magic: Seq<u8>,
    pub version: u32,
    pub initial_state: Seq<u8>,
}

impl View for ReplayHeader {
    type V = ReplayHeaderV;

    open spec fn view(&self) -> ReplayHeaderV {
        ReplayHeaderV {
            magic: self.magic@,
            version: self.version,
            initial_state: self.initial_state@,
        }
    }
}

impl Default for ReplayHeader {
    fn default() -> (r: Self)
        ensures
            r.magic == REPLAY_MAGIC,
            r.version == REPLAY_VERSION,
            r.initial_state@ == Seq::new(32, |i: int| 0u8),
    {
        let z: [u8; 32] = [0u8; 32];
        assert(z@ =~= Seq::new(32, |i: int| 0u8));
        ReplayHeader {
            magic: REPLAY_MAGIC,
            version: REPLAY_VERSION,
            initial_state: StateCommitment(z),
        }
    }
}

#[derive(Debug, Clone, PartialEq, Eq)]
pub struct ReplayFrame {
    pub raw_payload: Vec<u8>,
    pub expected_output_state: StateCommitment,
}

/// The content of a replay frame.
pub struct ReplayFrameV {
    pub raw_payload: Seq<u8>,
    pub expected_output_state: Seq<u8>,
}

impl View for ReplayFrame {
    type V = ReplayFrameV;

    open spec fn view(&self) -> ReplayFrameV {
        ReplayFrameV {
            raw_payload: self.raw_payload@,
            expected_output_state: self.expected_output_state@,
        }
    }
}

// ---------------------------------------------------------------------------
// Format
// ---------------------------------------------------------------------------

pub open spec fn enc_header(h: ReplayHeaderV) -> Seq<u8> {
    h.magic + enc_u32(h.version) + h.initial_state
}

pub open spec fn header_v_wf(h: ReplayHeaderV) -> bool {
    h.magic.len() == 8 && h.initial_state.len() == 32
}

pub open spec fn p_header(s: Seq<u8>, pos: int) -> Option<(ReplayHeaderV, int)> {
    if 0 <= pos && pos + 44 <= s.len() {
        Some(
            (
                ReplayHeaderV {
                    magic: s.subrange(pos, pos + 8),
                    version: p_u32(s, pos + 8).unwrap().0,
                    initial_state: s.subrange(pos + 12, pos + 44),
                },
                pos + 44,
            ),
        )
    } else {
        None
    }
}

pub open spec fn enc_frame(f: ReplayFrameV) -> Seq<u8> {
    enc_bytes(f.raw_payload) + f.expected_output_state
}

pub open spec fn frame_v_wf(f: ReplayFrameV) -> bool {
    bytes_fit(f.raw_payload) && f.expected_output_state.len() == 32
}

pub open spec fn p_frame(s: Seq<u8>, pos: int) -> Option<(ReplayFrameV, int)> {
    match p_bytes(s, pos) {
        Some((payload, p1)) => match p_fixed(s, p1, 32) {
            Some((state, p2)) => Some(
                (ReplayFrameV { raw_payload: payload, expected_output_state: state }, p2),
            ),
            None => None,
        },
        None => None,
    }
}

pub open spec fn enc_frames(fs: Seq<ReplayFrameV>) -> Seq<u8>
    decreases fs.len(),
{
    if fs.len() == 0 {
        Seq::empty()
    } else {
        enc_frames(fs.drop_last()) + enc_frame(fs.last())
    }
}

/// `n` frames parsed one after another from `pos`.
pub open spec fn p_frames(s: Seq<u8>, pos: int, n: nat) -> Option<Seq<ReplayFrameV>>
    decreases n,
{
    if n == 0 {
        Some(Seq::empty())
    } else {
        match p_frame(s, pos) {
            Some((f, q)) => match p_frames(s, q, (n - 1) as nat) {
                Some(rest) => Some(seq![f] + rest),
                None => None,
            },
            None => None,
        }
    }
}

/// The bytes of a recorded session.
pub open spec fn replay_bytes(h: ReplayHeaderV, fs: Seq<ReplayFrameV>) -> Seq<u8> {
    enc_header(h) + enc_u32(fs.len() as u32) + enc_frames(fs)
}

pub proof fn lemma_p_header(s: Seq<u8>, pos: int, h: ReplayHeaderV)
    requires
        header_v_wf(h),
        holds_at(s, pos, enc_header(h)),
    ensures
        p_header(s, pos) == Some((h, pos + 44)),
{
    lemma_enc_u32_len(h.version);
    lemma_holds_at_split(s, pos, h.magic + enc_u32(h.version), h.initial_state);
    lemma_holds_at_split(s, pos, h.magic, enc_u32(h.version));
    lemma_p_u32(s, pos + 8, h.version);
}

pub proof fn lemma_p_frame(s: Seq<u8>, pos: int, f: ReplayFrameV)
    requires
        frame_v_wf(f),
        holds_at(s, pos, enc_frame(f)),
    ensures
        p_frame(s, pos) == Some((f, pos + enc_frame(f).len())),
{
    lemma_enc_u32_len(f.raw_payload.len() as u32);
    lemma_holds_at_split(s, pos, enc_bytes(f.raw_payload), f.expected_output_state);
    lemma_p_bytes(s, pos, f.raw_payload);
    lemma_p_fixed(s, pos + 4 + f.raw_payload.len(), f.expected_output_state);
}

/// Frames encoded one after another parse back one after another.
pub proof fn lemma_p_frames(s: Seq<u8>, pos: int, fs: Seq<ReplayFrameV>)
    requires
        forall|i: int| 0 <= i < fs.len() ==> frame_v_wf(#[trigger] fs[i]),
        holds_at(s, pos, enc_frames(fs)),
    ensures
        p_frames(s, pos, fs.len()) == Some(fs),
    decreases fs.len(),
{
    if fs.len() > 0 {
        let f = fs[0];
        let rest = fs.drop_first();
        lemma_enc_frames_first(fs);
        lemma_holds_at_split(s, pos, enc_frame(f), enc_frames(rest));
        lemma_p_frame(s, pos, f);
        assert forall|i: int| 0 <= i < rest.len() implies frame_v_wf(#[trigger] rest[i]) by {
            assert(rest[i] == fs[i + 1]);
        }
        lemma_p_frames(s, pos + enc_frame(f).len(), rest);
        assert(seq![f] + rest =~= fs);
    }
}

/// The encoding of frames starts with the encoding of the first frame.
pub proof fn lemma_enc_frames_first(fs: Seq<ReplayFrameV>)
    requires
        fs.len() > 0,
    ensures
        enc_frames(fs) == enc_frame(fs[0]) + enc_frames(fs.drop_first()),
    decreases fs.len(),
{
    if fs.len() == 1 {
        assert(fs.drop_last() =~= Seq::<ReplayFrameV>::empty());
        assert(fs.drop_first() =~= Seq::<ReplayFrameV>::empty());
        assert(enc_frames(fs) =~= enc_frame(fs[0]) + enc_frames(fs.drop_first()));
    } else {
        let d = fs.drop_last();
        lemma_enc_frames_first(d);
        assert(d[0] == fs[0]);
        assert(d.drop_first() =~= fs.drop_first().drop_last());
        assert(fs.drop_first().last() == fs.last());
        assert(enc_frames(fs) =~= enc_frame(fs[0]) + enc_frames(fs.drop_first()));
    }
}

/// The encoding of frames one after another is the concatenation of the
/// encodings of any split of them.
pub proof fn lemma_enc_frames_append(a: Seq<ReplayFrameV>, b: Seq<ReplayFrameV>)
    ensures
        enc_frames(a + b) == enc_frames(a) + enc_frames(b),
    decreases b.len(),
{
    if b.len() == 0 {
        assert(a + b =~= a);
        assert(enc_frames(a) + enc_frames(b) =~= enc_frames(a));
    } else {
        let c = b.drop_last();
        lemma_enc_frames_append(a, c);
        assert((a + b).drop_last() =~= a + c);
        assert((a + b).last() == b.last());
        assert(enc_frames(a + b) =~= enc_frames(a) + enc_frames(b));
    }
}

/// Where the frame `i` of frames encoded from `base` starts.
pub open spec fn frame_pos(base: int, fs: Seq<ReplayFrameV>, i: int) -> int {
    base + enc_frames(fs.take(i)).len()
}

/// In frames encoded one after another from `base`, the frame `i` parses
/// at its position and ends where the next one starts.
pub proof fn lemma_frame_at(s: Seq<u8>, base: int, fs: Seq<ReplayFrameV>, i: int)
    requires
        forall|j: int| 0 <= j < fs.len() ==> frame_v_wf(#[trigger] fs[j]),
        holds_at(s, base, enc_frames(fs)),
        0 <= i < fs.len(),
    ensures
        p_frame(s, frame_pos(base, fs, i)) == Some((fs[i], frame_pos(base, fs, i + 1))),
{
    let pre = fs.take(i);
    let rest = fs.skip(i + 1);
    assert(fs.take(i + 1) =~= pre.push(fs[i]));
    assert(fs.take(i + 1).drop_last() =~= pre);
    assert(enc_frames(fs.take(i + 1)) == enc_frames(pre) + enc_frame(fs[i]));
    assert(fs =~= fs.take(i + 1) + rest);
    lemma_enc_frames_append(fs.take(i + 1), rest);
    lemma_holds_at_split(s, base, enc_frames(fs.take(i + 1)), enc_frames(rest));
    lemma_holds_at_split(s, base, enc_frames(pre), enc_frame(fs[i]));
    lemma_p_frame(s, base + enc_frames(pre).len(), fs[i]);
}

/// Reading back a recorded session gives its header and its frames, in
/// order: the header parses at the start, the frame count follows it, and
/// the frames parse one after another from there.
pub proof fn lemma_replay_roundtrip(h: ReplayHeaderV, fs: Seq<ReplayFrameV>)
    requires
        header_v_wf(h),
        fs.len() <= u32::MAX,
        forall|i: int| 0 <= i < fs.len() ==> frame_v_wf(#[trigger] fs[i]),
    ensures
        p_header(replay_bytes(h, fs), 0) == Some((h, 44int)),
        p_u32(replay_bytes(h, fs), 44) == Some((fs.len() as u32, 48int)),
        p_frames(replay_bytes(h, fs), 48, fs.len()) == Some(fs),
{
    let s = replay_bytes(h, fs);
    let a = enc_header(h);
    let b = enc_u32(fs.len() as u32);
    let c = enc_frames(fs);
    lemma_enc_u32_len(h.version);
    lemma_enc_u32_len(fs.len() as u32);
    lemma_holds_at_whole(s);
    lemma_holds_at_split(s, 0, a + b, c);
    lemma_holds_at_split(s, 0, a, b);
    lemma_p_header(s, 0, h);
    lemma_p_u32(s, 44, fs.len() as u32);
    lemma_p_frames(s, 48, fs);
}

/// A well-formed recorded session: a header with its fixed-size fields and
/// a count of frames that fits its `u32`, each frame well-formed.
pub open spec fn recorded_session(h: ReplayHeaderV, fs: Seq<ReplayFrameV>) -> bool {
    &&& header_v_wf(h)
    &&& fs.len() <= u32::MAX
    &&& forall|i: int| 0 <= i < fs.len() ==> frame_v_wf(#[trigger] fs[i])
}

/// In the bytes of a recorded session, frame `k` parses where the frames
/// before it end, and ends where frame `k + 1` starts.
pub proof fn lemma_session_frame(h: ReplayHeaderV, fs: Seq<ReplayFrameV>, k: int)
    requires
        recorded_session(h, fs),
        0 <= k < fs.len(),
    ensures
        p_frame(replay_bytes(h, fs), frame_pos(48, fs, k)) == Some(
            (fs[k], frame_pos(48, fs, k + 1)),
        ),
{
    let s = replay_bytes(h, fs);
    lemma_enc_u32_len(h.version);
    lemma_enc_u32_len(fs.len() as u32);
    lemma_holds_at_whole(s);
    lemma_holds_at_split(s, 0, enc_header(h) + enc_u32(fs.len() as u32), enc_frames(fs));
    lemma_frame_at(s, 48, fs, k);
}

// ---------------------------------------------------------------------------
// Errors
// ---------------------------------------------------------------------------

/// Errors of replay serialization and reading.
#[derive(Debug, Clone, Copy, PartialEq, Eq, Structural)]
pub enum ReplayError {
    /// The input ended before a complete header or frame.
    UnexpectedEof,
    /// The replay does not start with the expected magic bytes.
    InvalidMagic,
    /// A length does not fit its `u32` prefix.
    LengthOverflow,
}

impl ReplayError {
    /// A human-readable description of the error.
    pub fn message(&self) -> (r: &'static str)
        ensures
            r@ == match *self {
                ReplayError::UnexpectedEof => "Unexpected length of input"@,
                ReplayError::InvalidMagic => "Invalid replay magic bytes"@,
                ReplayError::LengthOverflow => "Length does not fit in u32"@,
            },
    {
        match self {
            ReplayError::UnexpectedEof => "Unexpected length of input",
            ReplayError::InvalidMagic => "Invalid replay magic bytes",
            ReplayError::LengthOverflow => "Length does not fit in u32",
        }
    }
}

// ---------------------------------------------------------------------------
// Recorder
// ---------------------------------------------------------------------------

#[derive(Debug, Clone)]
pub struct ReplayRecorder {
    pub header: ReplayHeader,
    pub frames: Vec<ReplayFrame>,
}

pub open spec fn frames_view(fs: Seq<ReplayFrame>) -> Seq<ReplayFrameV> {
    fs.map_values(|f: ReplayFrame| f@)
}

impl ReplayRecorder {
    pub fn new(initial_state: StateCommitment) -> (r: Self)
        ensures
            r.header.magic == REPLAY_MAGIC,
            r.header.version == REPLAY_VERSION,
            r.header.initial_state == initial_state,
            r.frames@.len() == 0,
    {
        ReplayRecorder {
            header: ReplayHeader { magic: REPLAY_MAGIC, version: REPLAY_VERSION, initial_state },
            frames: Vec::new(),
        }
    }

    /// Appends a frame.
    pub fn add_frame(&mut self, raw_payload: Vec<u8>, expected_output_state: StateCommitment)
        ensures
            final(self).header == old(self).header,
            final(self).frames@ == old(self).frames@.push(
                ReplayFrame { raw_payload, expected_output_state },
            ),
    {
        self.frames.push(ReplayFrame { raw_payload, expected_output_state });
    }

    /// Serializes the whole session: header, frame count, frames.
    ///
    /// # Errors
    ///
    /// Returns `LengthOverflow` when the frame count or a payload length
    /// does not fit in a `u32`.
    pub fn serialize(&self) -> (r: Result<Vec<u8>, ReplayError>)
        ensures
            r is Ok <==> (self.frames@.len() <= u32::MAX && forall|i: int|
                0 <= i < self.frames@.len() ==> #[trigger] bytes_fit(
                    self.frames@[i].raw_payload@,
                )),
            r matches Ok(b) ==> b@ == replay_bytes(self.header@, frames_view(self.frames@)),
            r matches Err(e) ==> e == ReplayError::LengthOverflow,
    {
        if self.frames.len() > 0xFFFF_FFFF {
            return Err(ReplayError::LengthOverflow);
        }
        let mut buffer: Vec<u8> = Vec::new();
        write_raw(&mut buffer, &self.header.magic);
        write_u32(&mut buffer, self.header.version);
        write_raw(&mut buffer, &self.header.initial_state.0);
        write_u32(&mut buffer, self.frames.len() as u32);
        let ghost start = buffer@;
        assert(start =~= enc_header(self.header@) + enc_u32(self.frames@.len() as u32));
        let mut i: usize = 0;
        while i < self.frames.len()
            invariant
                i <= self.frames@.len(),
                buffer@ == start + enc_frames(frames_view(self.frames@.take(i as int))),
                forall|j: int| 0 <= j < i ==> #[trigger] bytes_fit(self.frames@[j].raw_payload@),
            decreases self.frames@.len() - i,
        {
            if self.frames[i].raw_payload.len() > 0xFFFF_FFFF {
                assert(!bytes_fit(self.frames@[i as int].raw_payload@));
                return Err(ReplayError::LengthOverflow);
            }
            write_bytes(&mut buffer, self.frames[i].raw_payload.as_slice());
            write_raw(&mut buffer, &self.frames[i].expected_output_state.0);
            proof {
                let t = frames_view(self.frames@.take(i + 1));
                assert(self.frames@.take(i + 1).drop_last() =~= self.frames@.take(i as int));
                assert(t.drop_last() =~= frames_view(self.frames@.take(i as int)));
                assert(t.last() == self.frames@[i as int]@);
            }
            assert(buffer@ =~= start + enc_frames(frames_view(self.frames@.take(i + 1))));
            i = i + 1;
        }
        assert(self.frames@.take(self.frames@.len() as int) =~= self.frames@);
        Ok(buffer)
    }
}

impl Default for ReplayRecorder {
    fn default() -> (r: Self)
        ensures
            r.header.magic == REPLAY_MAGIC,
            r.header.version == REPLAY_VERSION,
            r.header.initial_state@ == Seq::new(32, |i: int| 0u8),
            r.frames@.len() == 0,
    {
        ReplayRecorder { header: ReplayHeader::default(), frames: Vec::new() }
    }
}

// ---------------------------------------------------------------------------
// Reader
// ---------------------------------------------------------------------------

/// What a reader holds: the buffer, the position of the next frame, the
/// header, the announced frame count and the number of frames read.
pub struct ReaderState {
    pub bytes: Seq<u8>,
    pub pos: int,
    pub header: ReplayHeaderV,
    pub total: u32,
    pub current: u32,
}

/// A read's result, with each frame taken by its content.
pub open spec fn frame_result_view(r: Result<Option<ReplayFrame>, ReplayError>) -> Result<
    Option<ReplayFrameV>,
    ReplayError,
> {
    match r {
        Ok(Some(f)) => Ok(Some(f@)),
        Ok(None) => Ok(None),
        Err(e) => Err(e),
    }
}

/// One read: nothing once the announced frames were read; otherwise the
/// frame at the position and a move past it, or `UnexpectedEof` with the
/// reader left as it was.
pub open spec fn reader_step(s: ReaderState) -> (Result<Option<ReplayFrameV>, ReplayError>, ReaderState) {
    if s.current >= s.total {
        (Ok(None), s)
    } else {
        match p_frame(s.bytes, s.pos) {
            None => (Err(ReplayError::UnexpectedEof), s),
            Some((f, q)) => (Ok(Some(f)), ReaderState { pos: q, current: (s.current + 1) as u32, ..s }),
        }
    }
}

/// The reader after `k` reads.
pub open spec fn reader_steps(s: ReaderState, k: nat) -> ReaderState
    decreases k,
{
    if k == 0 {
        s
    } else {
        reader_step(reader_steps(s, (k - 1) as nat)).1
    }
}

/// A fresh reader over the bytes of a recorded session.
pub open spec fn session_start(h: ReplayHeaderV, fs: Seq<ReplayFrameV>) -> ReaderState {
    ReaderState { bytes: replay_bytes(h, fs), pos: 48, header: h, total: fs.len() as u32, current: 0 }
}

/// Reading a recorded session frame by frame: after `k` reads from a fresh
/// reader, the reader has read `min(k, n)` frames and stands after them;
/// read `k` then gives frame `k` while `k < n`, and nothing from then on.
pub proof fn lemma_reader_reads_in_order(h: ReplayHeaderV, fs: Seq<ReplayFrameV>, k: nat)
    requires
        recorded_session(h, fs),
    ensures
        ({
            let n: nat = fs.len();
            let m: nat = if k < n { k } else { n };
            reader_steps(session_start(h, fs), k) == ReaderState {
                pos: frame_pos(48, fs, m as int),
                current: m as u32,
                ..session_start(h, fs)
            }
        }),
        k < fs.len() ==> reader_step(reader_steps(session_start(h, fs), k)).0 == Ok::<
            Option<ReplayFrameV>,
            ReplayError,
        >(Some(fs[k as int])),
        k >= fs.len() ==> reader_step(reader_steps(session_start(h, fs), k)).0 == Ok::<
            Option<ReplayFrameV>,
            ReplayError,
        >(None),
    decreases k,
{
    let start = session_start(h, fs);
    if k == 0 {
        assert(fs.take(0) =~= Seq::<ReplayFrameV>::empty());
        assert(start == ReaderState { pos: frame_pos(48, fs, 0), current: 0u32, ..start });
    } else {
        lemma_reader_reads_in_order(h, fs, (k - 1) as nat);
        if k - 1 < fs.len() {
            lemma_session_frame(h, fs, k - 1);
        }
    }
    if k < fs.len() {
        lemma_session_frame(h, fs, k as int);
    }
}

/// Reads a serialized replay frame by frame.
#[derive(Debug)]
pub struct ReplayReader<'a> {
    buffer: &'a [u8],
    pos: usize,
    pub header: ReplayHeader,
    pub total_frames: u32,
    pub current_frame: u32,
}

impl<'a> ReplayReader<'a> {
    /// The whole buffer being read.
    pub closed spec fn bytes(&self) -> Seq<u8> {
        self.buffer@
    }

    /// The position of the next frame in the buffer.
    pub closed spec fn position(&self) -> int {
        self.pos as int
    }

    pub closed spec fn wf(&self) -> bool {
        self.pos <= self.buffer@.len()
    }

    /// The header that was read.
    pub closed spec fn head(&self) -> ReplayHeader {
        self.header
    }

    /// The number of frames the replay announces.
    pub closed spec fn total(&self) -> u32 {
        self.total_frames
    }

    /// The number of frames read so far.
    pub closed spec fn current(&self) -> u32 {
        self.current_frame
    }

    /// What the reader holds.
    pub open spec fn state(&self) -> ReaderState {
        ReaderState {
            bytes: self.bytes(),
            pos: self.position(),
            header: self.head()@,
            total: self.total(),
            current: self.current(),
        }
    }

    /// The reader is reading the recorded session with header `h` and
    /// frames `fs`: its buffer holds exactly that session's bytes, it has
    /// read the first `current()` frames, and it stands where the next one
    /// starts.
    pub open spec fn reads_session(&self, h: ReplayHeaderV, fs: Seq<ReplayFrameV>) -> bool {
        &&& recorded_session(h, fs)
        &&& self.wf()
        &&& self.bytes() == replay_bytes(h, fs)
        &&& self.head()@ == h
        &&& self.total() == fs.len()
        &&& self.current() <= fs.len()
        &&& self.position() == frame_pos(48, fs, self.current() as int)
    }

    /// Creates a reader over a serialized replay buffer. Over the bytes of
    /// a recorded session it succeeds, and has read none of its frames.
    ///
    /// # Errors
    ///
    /// Returns `UnexpectedEof` when the header or frame count cannot be
    /// read, and `InvalidMagic` when the magic bytes are wrong.
    pub fn new(buffer: &'a [u8]) -> (r: Result<Self, ReplayError>)
        ensures
            forall|h: ReplayHeaderV, fs: Seq<ReplayFrameV>|
                recorded_session(h, fs) && h.magic == REPLAY_MAGIC@ && buffer@ == #[trigger] replay_bytes(h, fs)
                    ==> (r matches Ok(rd) && rd.reads_session(h, fs) && rd.current() == 0
                    && rd.state() == session_start(h, fs)),
            match p_header(buffer@, 0) {
                None => r == Err::<Self, ReplayError>(ReplayError::UnexpectedEof),
                Some((h, p)) => if h.magic != REPLAY_MAGIC@ {
                    r == Err::<Self, ReplayError>(ReplayError::InvalidMagic)
                } else {
                    match p_u32(buffer@, p) {
                        None => r == Err::<Self, ReplayError>(ReplayError::UnexpectedEof),
                        Some((n, q)) => r matches Ok(rd) && rd.wf() && rd.head()@ == h
                            && rd.total() == n && rd.current() == 0 && rd.bytes()
                            == buffer@ && rd.position() == q,
                    }
                },
            },
    {
        proof {
            assert forall|h: ReplayHeaderV, fs: Seq<ReplayFrameV>|
                recorded_session(h, fs) && buffer@ == #[trigger] replay_bytes(h, fs) implies p_header(buffer@, 0)
                    == Some((h, 44int)) && p_u32(buffer@, 44) == Some((fs.len() as u32, 48int))
                    && frame_pos(48, fs, 0) == 48 by {
                lemma_replay_roundtrip(h, fs);
                assert(fs.take(0) =~= Seq::<ReplayFrameV>::empty());
            }
        }
        if buffer.len() < 44 {
            return Err(ReplayError::UnexpectedEof);
        }
        let mut magic = [0u8; 8];
        let mut i: usize = 0;
        while i < 8
            invariant
                44 <= buffer@.len(),
                i <= 8,
                magic@.len() == 8,
                forall|j: int| 0 <= j < i ==> magic@[j] == buffer@[j],
            decreases 8 - i,
        {
            magic[i] = buffer[i];
            i = i + 1;
        }
        assert(magic@ =~= buffer@.subrange(0, 8));
        let (version, p1) = match read_u32(buffer, 8) {
            Some(x) => x,
            None => return Err(ReplayError::UnexpectedEof),
        };
        let (initial_state, p2) = match read_arr32(buffer, p1) {
            Some(x) => x,
            None => return Err(ReplayError::UnexpectedEof),
        };
        let expected = REPLAY_MAGIC;
        let mut same = true;
        let mut k: usize = 0;
        while k < 8
            invariant
                k <= 8,
                magic@.len() == 8,
                expected@.len() == 8,
                same == (forall|j: int| 0 <= j < k ==> magic@[j] == expected@[j]),
            decreases 8 - k,
        {
            if magic[k] != expected[k] {
                same = false;
            }
            k = k + 1;
        }
        if !same {
            assert(magic@ != REPLAY_MAGIC@);
            return Err(ReplayError::InvalidMagic);
        }
        assert(magic@ =~= REPLAY_MAGIC@);
        let (total_frames, p3) = match read_u32(buffer, p2) {
            Some(x) => x,
            None => return Err(ReplayError::UnexpectedEof),
        };
        let header = ReplayHeader { magic, version, initial_state: StateCommitment(initial_state) };
        Ok(ReplayReader { buffer, pos: p3, header, total_frames, current_frame: 0 })
    }

    /// Reads the next frame, or `None` once `total_frames` frames were read.
    /// Over a recorded session, successive calls give its frames in order,
    /// then `None`.
    ///
    /// # Errors
    ///
    /// Returns `UnexpectedEof` when the next frame cannot be decoded; the
    /// reader is then left as it was.
    pub fn next_frame(&mut self) -> (r: Result<Option<ReplayFrame>, ReplayError>)
        requires
            old(self).wf(),
        ensures
            final(self).wf(),
            final(self).bytes() == old(self).bytes(),
            final(self).head() == old(self).head(),
            final(self).total() == old(self).total(),
            old(self).current() >= old(self).total() ==> r == Ok::<
                Option<ReplayFrame>,
                ReplayError,
            >(None) && final(self).current() == old(self).current() && final(self).position()
                == old(self).position(),
            old(self).current() < old(self).total() ==> match p_frame(
                old(self).bytes(),
                old(self).position(),
            ) {
                None => r == Err::<Option<ReplayFrame>, ReplayError>(ReplayError::UnexpectedEof)
                    && final(self).current() == old(self).current() && final(self).position()
                    == old(self).position(),
                Some((f, q)) => r matches Ok(Some(fr)) && fr@ == f && final(self).current()
                    == old(self).current() + 1 && final(self).position() == q,
            },
            (frame_result_view(r), final(self).state()) == reader_step(old(self).state()),
            forall|h: ReplayHeaderV, fs: Seq<ReplayFrameV>| #[trigger]
                old(self).reads_session(h, fs) ==> {
                    &&& final(self).reads_session(h, fs)
                    &&& old(self).current() < fs.len() ==> (r matches Ok(Some(fr)) && fr@
                        == fs[old(self).current() as int] && final(self).current()
                        == old(self).current() + 1)
                    &&& old(self).current() == fs.len() ==> r == Ok::<
                        Option<ReplayFrame>,
                        ReplayError,
                    >(None) && *final(self) == *old(self)
                },
    {
        proof {
            assert forall|h: ReplayHeaderV, fs: Seq<ReplayFrameV>| #[trigger]
                self.reads_session(h, fs) && self.current() < fs.len() implies p_frame(
                self.bytes(),
                self.position(),
            ) == Some((fs[self.current() as int], frame_pos(48, fs, self.current() + 1))) by {
                lemma_session_frame(h, fs, self.current() as int);
            }
        }
        if self.current_frame >= self.total_frames {
            return Ok(None);
        }
        let (raw_payload, p1) = match read_bytes(self.buffer, self.pos) {
            Some(x) => x,
            None => return Err(ReplayError::UnexpectedEof),
        };
        let (state, p2) = match read_arr32(self.buffer, p1) {
            Some(x) => x,
            None => return Err(ReplayError::UnexpectedEof),
        };
        self.pos = p2;
        self.current_frame = self.current_frame + 1;
        Ok(Some(ReplayFrame { raw_payload, expected_output_state: StateCommitment(state) }))
    }
}

} // verus!
