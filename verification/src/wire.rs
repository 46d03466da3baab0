//! Primitive pieces of the binary wire format: little-endian integers,
//! fixed-size byte arrays, length-prefixed byte strings, booleans and
//! option tags. Each piece has an encoding (a spec function from a value to
//! bytes), a parser (a spec function from bytes and a position to the value
//! and the position after it), an executable reader and writer that follow
//! them, and a lemma that parsing an encoding gives the value back.
use vstd::bytes::*;
use vstd::prelude::*;

verus! {

// ---------------------------------------------------------------------------
// Encodings
// ---------------------------------------------------------------------------

/// Little-endian encoding of a `u32` (4 bytes).
pub open spec fn enc_u32(x: u32) -> Seq<u8> {
    spec_u32_to_le_bytes(x)
}

/// Little-endian encoding of a `u64` (8 bytes).
pub open spec fn enc_u64(x: u64) -> Seq<u8> {
    spec_u64_to_le_bytes(x)
}

/// A boolean is one byte: 0 or 1.
pub open spec fn enc_bool(b: bool) -> Seq<u8> {
    seq![if b { 1u8 } else { 0u8 }]
}

/// A byte string is its length as a `u32`, then its bytes.
pub open spec fn enc_bytes(s: Seq<u8>) -> Seq<u8> {
    enc_u32(s.len() as u32) + s
}

/// Whether a byte string can be encoded: its length fits a `u32`.
pub open spec fn bytes_fit(s: Seq<u8>) -> bool {
    s.len() <= u32::MAX
}

// ---------------------------------------------------------------------------
// Parsers
// ---------------------------------------------------------------------------

pub open spec fn p_u8(s: Seq<u8>, pos: int) -> Option<(u8, int)> {
    if 0 <= pos < s.len() {
        Some((s[pos], pos + 1))
    } else {
        None
    }
}

pub open spec fn p_fixed(s: Seq<u8>, pos: int, n: int) -> Option<(Seq<u8>, int)> {
    if 0 <= pos && 0 <= n && pos + n <= s.len() {
        Some((s.subrange(pos, pos + n), pos + n))
    } else {
        None
    }
}

pub open spec fn p_u32(s: Seq<u8>, pos: int) -> Option<(u32, int)> {
    if 0 <= pos && pos + 4 <= s.len() {
        Some((spec_u32_from_le_bytes(s.subrange(pos, pos + 4)), pos + 4))
    } else {
        None
    }
}

pub open spec fn p_u64(s: Seq<u8>, pos: int) -> Option<(u64, int)> {
    if 0 <= pos && pos + 8 <= s.len() {
        Some((spec_u64_from_le_bytes(s.subrange(pos, pos + 8)), pos + 8))
    } else {
        None
    }
}

pub open spec fn p_bool(s: Seq<u8>, pos: int) -> Option<(bool, int)> {
    match p_u8(s, pos) {
        Some((b, p)) => if b == 0 {
            Some((false, p))
        } else if b == 1 {
            Some((true, p))
        } else {
            None
        },
        None => None,
    }
}

pub open spec fn p_bytes(s: Seq<u8>, pos: int) -> Option<(Seq<u8>, int)> {
    match p_u32(s, pos) {
        Some((n, p)) => p_fixed(s, p, n as int),
        None => None,
    }
}

/// Relates the result of an executable reader to its parser.
pub open spec fn read_matches<T>(r: Option<(T, usize)>, p: Option<(T, int)>) -> bool {
    match r {
        Some((v, q)) => p == Some((v, q as int)),
        None => p is None,
    }
}

/// Whether `s` holds `e` at position `pos`.
pub open spec fn holds_at(s: Seq<u8>, pos: int, e: Seq<u8>) -> bool {
    0 <= pos && pos + e.len() <= s.len() && s.subrange(pos, pos + e.len()) == e
}

// ---------------------------------------------------------------------------
// Round-trip lemmas
// ---------------------------------------------------------------------------

pub proof fn lemma_enc_u32_len(x: u32)
    ensures
        enc_u32(x).len() == 4,
{
    lemma_auto_spec_u32_to_from_le_bytes();
}

pub proof fn lemma_enc_u64_len(x: u64)
    ensures
        enc_u64(x).len() == 8,
{
    lemma_auto_spec_u64_to_from_le_bytes();
}

pub proof fn lemma_p_u32(s: Seq<u8>, pos: int, x: u32)
    requires
        holds_at(s, pos, enc_u32(x)),
    ensures
        p_u32(s, pos) == Some((x, pos + 4)),
{
    lemma_auto_spec_u32_to_from_le_bytes();
}

pub proof fn lemma_p_u64(s: Seq<u8>, pos: int, x: u64)
    requires
        holds_at(s, pos, enc_u64(x)),
    ensures
        p_u64(s, pos) == Some((x, pos + 8)),
{
    lemma_auto_spec_u64_to_from_le_bytes();
}

pub proof fn lemma_p_u8(s: Seq<u8>, pos: int, x: u8)
    requires
        holds_at(s, pos, seq![x]),
    ensures
        p_u8(s, pos) == Some((x, pos + 1)),
{
    assert(s.subrange(pos, pos + 1)[0] == s[pos]);
}

pub proof fn lemma_p_bool(s: Seq<u8>, pos: int, b: bool)
    requires
        holds_at(s, pos, enc_bool(b)),
    ensures
        p_bool(s, pos) == Some((b, pos + 1)),
{
    assert(s.subrange(pos, pos + 1)[0] == s[pos]);
}

pub proof fn lemma_p_fixed(s: Seq<u8>, pos: int, e: Seq<u8>)
    requires
        holds_at(s, pos, e),
    ensures
        p_fixed(s, pos, e.len() as int) == Some((e, pos + e.len())),
{
}

pub proof fn lemma_p_bytes(s: Seq<u8>, pos: int, e: Seq<u8>)
    requires
        bytes_fit(e),
        holds_at(s, pos, enc_bytes(e)),
    ensures
        p_bytes(s, pos) == Some((e, pos + 4 + e.len())),
{
    lemma_enc_u32_len(e.len() as u32);
    lemma_holds_at_split(s, pos, enc_u32(e.len() as u32), e);
    lemma_p_u32(s, pos, e.len() as u32);
}

/// A concatenation held at a position holds each part at its own position.
pub proof fn lemma_holds_at_split(s: Seq<u8>, pos: int, a: Seq<u8>, b: Seq<u8>)
    requires
        holds_at(s, pos, a + b),
    ensures
        holds_at(s, pos, a),
        holds_at(s, pos + a.len(), b),
{
    let w = s.subrange(pos, pos + a.len() + b.len());
    assert(w == a + b);
    assert(s.subrange(pos, pos + a.len()) =~= w.subrange(0, a.len() as int));
    assert(w.subrange(0, a.len() as int) =~= a);
    assert(s.subrange(pos + a.len(), pos + a.len() + b.len()) =~= w.subrange(
        a.len() as int,
        (a.len() + b.len()) as int,
    ));
    assert(w.subrange(a.len() as int, (a.len() + b.len()) as int) =~= b);
}

/// A byte string holds itself at position 0.
pub proof fn lemma_holds_at_whole(s: Seq<u8>)
    ensures
        holds_at(s, 0, s),
{
    assert(s.subrange(0, s.len() as int) =~= s);
}

// ---------------------------------------------------------------------------
// Executable readers
// ---------------------------------------------------------------------------

pub fn read_u8(buf: &[u8], pos: usize) -> (r: Option<(u8, usize)>)
    ensures
        read_matches(r, p_u8(buf@, pos as int)),
{
    if pos < buf.len() {
        Some((buf[pos], pos + 1))
    } else {
        None
    }
}

pub fn read_bool(buf: &[u8], pos: usize) -> (r: Option<(bool, usize)>)
    ensures
        read_matches(r, p_bool(buf@, pos as int)),
{
    match read_u8(buf, pos) {
        Some((b, p)) => if b == 0 {
            Some((false, p))
        } else if b == 1 {
            Some((true, p))
        } else {
            None
        },
        None => None,
    }
}

pub fn read_u32(buf: &[u8], pos: usize) -> (r: Option<(u32, usize)>)
    ensures
        read_matches(r, p_u32(buf@, pos as int)),
{
    if pos <= buf.len() && buf.len() - pos >= 4 {
        let part = vstd::slice::slice_subrange(buf, pos, pos + 4);
        let v = u32_from_le_bytes(part);
        Some((v, pos + 4))
    } else {
        None
    }
}

pub fn read_u64(buf: &[u8], pos: usize) -> (r: Option<(u64, usize)>)
    ensures
        read_matches(r, p_u64(buf@, pos as int)),
{
    if pos <= buf.len() && buf.len() - pos >= 8 {
        let part = vstd::slice::slice_subrange(buf, pos, pos + 8);
        let v = u64_from_le_bytes(part);
        Some((v, pos + 8))
    } else {
        None
    }
}

/// Reads 32 bytes into an array.
pub fn read_arr32(buf: &[u8], pos: usize) -> (r: Option<([u8; 32], usize)>)
    ensures
        match r {
            Some((a, q)) => p_fixed(buf@, pos as int, 32) == Some((a@, q as int)),
            None => p_fixed(buf@, pos as int, 32) is None,
        },
{
    if pos <= buf.len() && buf.len() - pos >= 32 {
        let mut a = [0u8; 32];
        let mut i: usize = 0;
        while i < 32
            invariant
                pos + 32 <= buf.len(),
                i <= 32,
                a@.len() == 32,
                forall|j: int| 0 <= j < i ==> a@[j] == buf@[pos + j],
            decreases 32 - i,
        {
            a[i] = buf[pos + i];
            i = i + 1;
        }
        assert(a@ =~= buf@.subrange(pos as int, pos + 32));
        Some((a, pos + 32))
    } else {
        None
    }
}

/// Reads 64 bytes into an array.
pub fn read_arr64(buf: &[u8], pos: usize) -> (r: Option<([u8; 64], usize)>)
    ensures
        match r {
            Some((a, q)) => p_fixed(buf@, pos as int, 64) == Some((a@, q as int)),
            None => p_fixed(buf@, pos as int, 64) is None,
        },
{
    if pos <= buf.len() && buf.len() - pos >= 64 {
        let mut a = [0u8; 64];
        let mut i: usize = 0;
        while i < 64
            invariant
                pos + 64 <= buf.len(),
                i <= 64,
                a@.len() == 64,
                forall|j: int| 0 <= j < i ==> a@[j] == buf@[pos + j],
            decreases 64 - i,
        {
            a[i] = buf[pos + i];
            i = i + 1;
        }
        assert(a@ =~= buf@.subrange(pos as int, pos + 64));
        Some((a, pos + 64))
    } else {
        None
    }
}

/// Copies `n` bytes starting at `pos` into a new vector.
pub fn read_fixed(buf: &[u8], pos: usize, n: usize) -> (r: Option<(Vec<u8>, usize)>)
    ensures
        match r {
            Some((v, q)) => p_fixed(buf@, pos as int, n as int) == Some((v@, q as int)),
            None => p_fixed(buf@, pos as int, n as int) is None,
        },
{
    if pos <= buf.len() && buf.len() - pos >= n {
        let mut v: Vec<u8> = Vec::new();
        let mut i: usize = 0;
        while i < n
            invariant
                pos + n <= buf.len(),
                i <= n,
                v@ =~= buf@.subrange(pos as int, pos + i),
            decreases n - i,
        {
            v.push(buf[pos + i]);
            i = i + 1;
        }
        Some((v, pos + n))
    } else {
        None
    }
}

/// Reads a length-prefixed byte string.
pub fn read_bytes(buf: &[u8], pos: usize) -> (r: Option<(Vec<u8>, usize)>)
    ensures
        match r {
            Some((v, q)) => p_bytes(buf@, pos as int) == Some((v@, q as int)),
            None => p_bytes(buf@, pos as int) is None,
        },
{
    match read_u32(buf, pos) {
        Some((n, p)) => read_fixed(buf, p, n as usize),
        None => None,
    }
}

// ---------------------------------------------------------------------------
// Executable writers
// ---------------------------------------------------------------------------

pub fn write_u8(out: &mut Vec<u8>, x: u8)
    ensures
        final(out)@ == old(out)@ + seq![x],
{
    out.push(x);
    assert(out@ =~= old(out)@ + seq![x]);
}

pub fn write_bool(out: &mut Vec<u8>, b: bool)
    ensures
        final(out)@ == old(out)@ + enc_bool(b),
{
    if b {
        write_u8(out, 1);
    } else {
        write_u8(out, 0);
    }
}

pub fn write_u32(out: &mut Vec<u8>, x: u32)
    ensures
        final(out)@ == old(out)@ + enc_u32(x),
{
    let mut b = u32_to_le_bytes(x);
    out.append(&mut b);
}

pub fn write_u64(out: &mut Vec<u8>, x: u64)
    ensures
        final(out)@ == old(out)@ + enc_u64(x),
{
    let mut b = u64_to_le_bytes(x);
    out.append(&mut b);
}

/// Appends raw bytes with no length prefix.
pub fn write_raw(out: &mut Vec<u8>, src: &[u8])
    ensures
        final(out)@ == old(out)@ + src@,
{
    let mut i: usize = 0;
    while i < src.len()
        invariant
            i <= src@.len(),
            out@ =~= old(out)@ + src@.subrange(0, i as int),
        decreases src@.len() - i,
    {
        out.push(src[i]);
        i = i + 1;
    }
    assert(src@.subrange(0, src@.len() as int) =~= src@);
}

/// Appends a length-prefixed byte string.
pub fn write_bytes(out: &mut Vec<u8>, src: &[u8])
    requires
        bytes_fit(src@),
    ensures
        final(out)@ == old(out)@ + enc_bytes(src@),
{
    write_u32(out, src.len() as u32);
    write_raw(out, src);
    assert(out@ =~= old(out)@ + enc_bytes(src@));
}

} // verus!

verus! {

/// Compares two 32-byte arrays.
pub fn eq_bytes32(a: &[u8; 32], b: &[u8; 32]) -> (r: bool)
    ensures
        r == (a@ == b@),
{
    let mut i: usize = 0;
    while i < 32
        invariant
            i <= 32,
            a@.len() == 32,
            b@.len() == 32,
            forall|j: int| 0 <= j < i ==> a@[j] == b@[j],
        decreases 32 - i,
    {
        if a[i] != b[i] {
            return false;
        }
        i = i + 1;
    }
    assert(a@ =~= b@);
    true
}

/// Compares two byte strings.
pub fn bytes_eq(a: &[u8], b: &[u8]) -> (r: bool)
    ensures
        r == (a@ == b@),
{
    if a.len() != b.len() {
        return false;
    }
    let mut i: usize = 0;
    while i < a.len()
        invariant
            a@.len() == b@.len(),
            i <= a@.len(),
            forall|j: int| 0 <= j < i ==> a@[j] == b@[j],
        decreases a@.len() - i,
    {
        if a[i] != b[i] {
            return false;
        }
        i = i + 1;
    }
    assert(a@ =~= b@);
    true
}

} // verus!
