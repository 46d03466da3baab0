//! Domain-separated BLAKE3 commitments.
use subtle::ConstantTimeEq;
use vstd::prelude::*;

verus! {

/// The domain separator used when committing to a state: "LAURN_STATE_V1".
pub const STATE_DOMAIN_V1: [u8; 14] = [76, 65, 85, 82, 78, 95, 83, 84, 65, 84, 69, 95, 86, 49];

/// The domain separator used when committing to a transition: "LAURN_TRANS_V1".
pub const TRANSITION_DOMAIN_V1: [u8; 14] = [76, 65, 85, 82, 78, 95, 84, 82, 65, 78, 83, 95, 86, 49];

/// The BLAKE3 digest (32 bytes) of a byte string, as the `blake3` crate
/// computes it.
pub uninterp spec fn blake3_digest(data: Seq<u8>) -> Seq<u8>;

/// Calls `blake3::Hasher::new`, `update` with `first`, `update` with
/// `second`, and `finalize`. The crate documents the incremental hasher as
/// equivalent to `blake3::hash` of all the bytes fed to it, so the contract
/// states the digest of the concatenation.
#[verifier::external_body]
fn blake3_hash_two(first: &[u8], second: &[u8]) -> (r: [u8; 32])
    ensures
        r@ == blake3_digest(first@ + second@),
{
    let mut hasher = blake3::Hasher::new();
    hasher.update(first);
    hasher.update(second);
    *hasher.finalize().as_bytes()
}

/// Calls `blake3::hash` and returns the 32 digest bytes; the contract names
/// the result as the digest of `data`.
#[verifier::external_body]
pub(crate) fn blake3_hash(data: &[u8]) -> (r: [u8; 32])
    ensures
        r@ == blake3_digest(data@),
{
    *blake3::hash(data).as_bytes()
}

/// Calls `subtle::ConstantTimeEq::ct_eq` on two 32-byte arrays and converts
/// the `Choice` to `bool`; per the crate's documentation the choice is 1
/// exactly when the two slices have equal length and equal contents.
#[verifier::external_body]
pub(crate) fn ct_eq_32(a: &[u8; 32], b: &[u8; 32]) -> (r: bool)
    ensures
        r == (a@ == b@),
{
    bool::from(a.ct_eq(b))
}

/// `StateCommitment` is a deterministic, canonical representation of a
/// simulation state: a 32-byte cryptographic commitment (BLAKE3).
#[derive(Debug, Clone, Copy, Eq, Hash)]
pub struct StateCommitment(pub [u8; 32]);

impl View for StateCommitment {
    type V = Seq<u8>;

    open spec fn view(&self) -> Seq<u8> {
        self.0@
    }
}

impl StateCommitment {
    /// Returns a reference to the underlying byte array.
    pub fn as_bytes(&self) -> (r: &[u8; 32])
        ensures
            *r == self.0,
    {
        &self.0
    }

    /// Constant-time equality of the commitment bytes.
    pub fn ct_eq(&self, other: &Self) -> (r: bool)
        ensures
            r == (self.0@ == other.0@),
    {
        ct_eq_32(&self.0, &other.0)
    }
}

impl PartialEq for StateCommitment {
    fn eq(&self, other: &Self) -> (r: bool) {
        self.ct_eq(other)
    }
}

impl vstd::std_specs::cmp::PartialEqSpecImpl for StateCommitment {
    open spec fn obeys_eq_spec() -> bool {
        true
    }

    open spec fn eq_spec(&self, other: &Self) -> bool {
        self.0@ == other.0@
    }
}

/// The `CommitmentEngine` computes 32-byte hashes for LAURN primitives.
pub struct CommitmentEngine;

impl CommitmentEngine {
    /// Computes a hash given a domain separator and canonical bytes: the
    /// domain separator is mixed into the hash context first.
    pub fn compute(domain_separator: &[u8], bytes: &[u8]) -> (r: [u8; 32])
        ensures
            r@ == blake3_digest(domain_separator@ + bytes@),
    {
        blake3_hash_two(domain_separator, bytes)
    }

    /// Computes a `StateCommitment` for the provided canonical bytes.
    pub fn commit_state(bytes: &[u8]) -> (r: StateCommitment)
        ensures
            r.0@ == blake3_digest(STATE_DOMAIN_V1@ + bytes@),
    {
        let domain = STATE_DOMAIN_V1;
        StateCommitment(Self::compute(&domain, bytes))
    }
}

/// State commitments and transition commitments never hash the same bytes:
/// the two domain separators differ, and each prefixes what it commits to.
pub proof fn lemma_domains_separate(state_bytes: Seq<u8>, transition_bytes: Seq<u8>)
    ensures
        STATE_DOMAIN_V1@ + state_bytes != TRANSITION_DOMAIN_V1@ + transition_bytes,
{
    assert((STATE_DOMAIN_V1@ + state_bytes)[6] == 83u8);
    assert((TRANSITION_DOMAIN_V1@ + transition_bytes)[6] == 84u8);
}

} // verus!
