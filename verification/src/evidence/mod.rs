//! Execution evidence: an issuer's signed statement that it evaluated a
//! transition in a given environment.
use crate::authority::{ed25519_accepts, ed25519_key_decodes, ed25519_verify, AuthorityId, SignatureCheck};
use crate::commitment::{blake3_digest, blake3_hash};
use crate::epoch::EpochId;
use crate::transition::TransitionCommitment;
use crate::wire::{enc_u64, lemma_enc_u64_len, write_raw, write_u64, write_u8};
use vstd::prelude::*;

pub mod platform;

verus! {

/// The domain separator of evidence signatures: "LAURN_EVIDENCE_V1".
pub const EVIDENCE_DOMAIN_V1: [u8; 17] = [
    76, 65, 85, 82, 78, 95, 69, 86, 73, 68, 69, 78, 67, 69, 95, 86, 49,
];

#[derive(Debug, Clone, Copy, PartialEq, Eq, Hash)]
pub struct EvidenceId(pub [u8; 32]);

#[derive(Debug, Clone, Copy, PartialEq, Eq, Structural)]
pub enum EvidenceType {
    /// A trusted backend server generated this evidence.
    ServerAuthoritative,
    /// An Intel SGX secure enclave generated this evidence.
    IntelSgx,
    /// An AWS Nitro Enclave generated this evidence.
    AwsNitro,
}

#[derive(Debug, Clone)]
pub struct ExecutionEvidence {
    /// The unique identifier of this evidence.
    pub id: EvidenceId,
    /// The type of environment that produced this evidence.
    pub evidence_type: EvidenceType,
    /// The authority that generated the attestation.
    pub issuer: AuthorityId,
    /// The epoch during which this transition was evaluated.
    pub epoch_id: EpochId,
    /// The UTC timestamp in milliseconds when the evaluation occurred.
    pub timestamp_ms: u64,
    /// Cryptographic commitment to the exact state transition this evidence covers.
    pub transition_commitment: TransitionCommitment,
    /// The opaque bytes holding the real platform attestation (e.g., an SGX quote or JWT).
    pub raw_attestation: Vec<u8>,
    /// An Ed25519 signature from the issuer over the deterministic binding payload.
    pub signature: [u8; 64],
}

pub open spec fn evidence_type_byte(t: EvidenceType) -> u8 {
    match t {
        EvidenceType::ServerAuthoritative => 0,
        EvidenceType::IntelSgx => 1,
        EvidenceType::AwsNitro => 2,
    }
}

impl ExecutionEvidence {
    /// The bytes the issuer signs: the domain separator, the identifier, the
    /// type byte, the issuer, the epoch, the timestamp (little-endian), the
    /// transition commitment, and the BLAKE3 digest of the raw attestation.
    pub open spec fn payload_spec(&self) -> Seq<u8> {
        EVIDENCE_DOMAIN_V1@ + self.id.0@ + seq![evidence_type_byte(self.evidence_type)]
            + self.issuer@ + self.epoch_id@ + enc_u64(self.timestamp_ms)
            + self.transition_commitment@ + blake3_digest(self.raw_attestation@)
    }

    /// Computes the deterministic payload that the issuer must sign.
    pub fn signature_payload(&self) -> (r: Vec<u8>)
        ensures
            r@ == self.payload_spec(),
            r@.len() == 186,
    {
        let mut payload: Vec<u8> = Vec::new();
        let domain = EVIDENCE_DOMAIN_V1;
        write_raw(&mut payload, &domain);
        write_raw(&mut payload, &self.id.0);
        let type_byte: u8 = match self.evidence_type {
            EvidenceType::ServerAuthoritative => 0,
            EvidenceType::IntelSgx => 1,
            EvidenceType::AwsNitro => 2,
        };
        write_u8(&mut payload, type_byte);
        write_raw(&mut payload, &self.issuer.0);
        write_raw(&mut payload, &self.epoch_id.0);
        write_u64(&mut payload, self.timestamp_ms);
        write_raw(&mut payload, self.transition_commitment.as_bytes());
        // The digest binds the attestation without copying its bytes.
        let attestation_hash = blake3_hash(self.raw_attestation.as_slice());
        write_raw(&mut payload, &attestation_hash);
        assert(payload@ =~= self.payload_spec());
        proof {
            lemma_enc_u64_len(self.timestamp_ms);
        }
        payload
    }

    /// Checks the issuer's Ed25519 signature over the bound data, given the
    /// issuer's 32-byte public key: true exactly when the key decodes and
    /// the signature verifies over `signature_payload`.
    ///
    /// This does not verify the underlying `raw_attestation` of the
    /// hardware platform.
    pub fn verify_signature(&self, public_key: &[u8; 32]) -> (r: bool)
        ensures
            r == (ed25519_key_decodes(public_key@) && ed25519_accepts(
                public_key@,
                self.payload_spec(),
                self.signature@,
            )),
    {
        let payload = self.signature_payload();
        let check = ed25519_verify(public_key, payload.as_slice(), &self.signature);
        check == SignatureCheck::Valid
    }
}

} // verus!
