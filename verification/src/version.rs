//! Protocol versions and their 12-byte encoding.
use crate::wire::{
    enc_u32, holds_at, lemma_enc_u32_len, lemma_holds_at_split, lemma_p_u32, p_u32, read_u32,
    write_u32,
};
use vstd::prelude::*;

verus! {

/// `ProtocolVersion` represents the explicitly versioned protocol iteration.
/// This prevents incompatible clients and servers from attempting to verify
/// state transitions from different semantic models.
#[derive(Debug, Clone, Copy, PartialEq, Eq, Hash)]
pub struct ProtocolVersion {
    pub major: u32,
    pub minor: u32,
    pub patch: u32,
}

/// A version is encoded as `major`, `minor`, `patch`, each a little-endian
/// `u32`: 12 bytes.
pub open spec fn enc_version(v: ProtocolVersion) -> Seq<u8> {
    enc_u32(v.major) + enc_u32(v.minor) + enc_u32(v.patch)
}

/// Parses a version at `pos`.
pub open spec fn p_version(s: Seq<u8>, pos: int) -> Option<(ProtocolVersion, int)> {
    if 0 <= pos && pos + 12 <= s.len() {
        Some(
            (
                ProtocolVersion {
                    major: p_u32(s, pos).unwrap().0,
                    minor: p_u32(s, pos + 4).unwrap().0,
                    patch: p_u32(s, pos + 8).unwrap().0,
                },
                pos + 12,
            ),
        )
    } else {
        None
    }
}

pub proof fn lemma_enc_version_len(v: ProtocolVersion)
    ensures
        enc_version(v).len() == 12,
{
    lemma_enc_u32_len(v.major);
    lemma_enc_u32_len(v.minor);
    lemma_enc_u32_len(v.patch);
}

pub proof fn lemma_p_version(s: Seq<u8>, pos: int, v: ProtocolVersion)
    requires
        holds_at(s, pos, enc_version(v)),
    ensures
        p_version(s, pos) == Some((v, pos + 12)),
{
    lemma_enc_version_len(v);
    lemma_enc_u32_len(v.major);
    lemma_enc_u32_len(v.minor);
    let a = enc_u32(v.major);
    let b = a + enc_u32(v.minor);
    lemma_holds_at_split(s, pos, b, enc_u32(v.patch));
    lemma_holds_at_split(s, pos, a, enc_u32(v.minor));
    lemma_p_u32(s, pos, v.major);
    lemma_p_u32(s, pos + 4, v.minor);
    lemma_p_u32(s, pos + 8, v.patch);
}

impl ProtocolVersion {
    /// Creates a new `ProtocolVersion`.
    pub fn new(major: u32, minor: u32, patch: u32) -> (r: Self)
        ensures
            r == (ProtocolVersion { major, minor, patch }),
    {
        ProtocolVersion { major, minor, patch }
    }

    /// Returns the current protocol version (0.1.0).
    pub fn current() -> (r: Self)
        ensures
            r == (ProtocolVersion { major: 0, minor: 1, patch: 0 }),
    {
        Self::new(0, 1, 0)
    }

    /// Appends the encoding of the version.
    pub fn write_to(&self, out: &mut Vec<u8>)
        ensures
            final(out)@ == old(out)@ + enc_version(*self),
    {
        write_u32(out, self.major);
        write_u32(out, self.minor);
        write_u32(out, self.patch);
        assert(out@ =~= old(out)@ + enc_version(*self));
    }

    /// Reads a version at `pos`.
    pub fn read_from(buf: &[u8], pos: usize) -> (r: Option<(ProtocolVersion, usize)>)
        ensures
            match r {
                Some((v, q)) => p_version(buf@, pos as int) == Some((v, q as int)),
                None => p_version(buf@, pos as int) is None,
            },
    {
        if pos > buf.len() || buf.len() - pos < 12 {
            return None;
        }
        let (major, p1) = match read_u32(buf, pos) {
            Some(x) => x,
            None => return None,
        };
        let (minor, p2) = match read_u32(buf, p1) {
            Some(x) => x,
            None => return None,
        };
        let (patch, p3) = match read_u32(buf, p2) {
            Some(x) => x,
            None => return None,
        };
        Some((ProtocolVersion { major, minor, patch }, p3))
    }

    /// Decodes a version that occupies the whole of `bytes`.
    pub fn try_from_slice(bytes: &[u8]) -> (r: Option<ProtocolVersion>)
        ensures
            r is Some <==> bytes@.len() == 12,
            r matches Some(v) ==> p_version(bytes@, 0) == Some((v, 12int)),
    {
        match Self::read_from(bytes, 0) {
            Some((v, q)) => if q == bytes.len() {
                Some(v)
            } else {
                None
            },
            None => None,
        }
    }
}

} // verus!
