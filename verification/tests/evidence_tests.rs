use ed25519_dalek::{Signer, SigningKey};
use laurn::authority::AuthorityId;
use laurn::epoch::EpochId;
use laurn::evidence::platform::{
    nsm_device_path, sgx_device_path, unlinked_platform_outcome, AwsNitroProvider, IntelSgxProvider, PlatformIntegrityError,
    PlatformIntegrityProvider,
};
use laurn::evidence::{EvidenceId, EvidenceType, ExecutionEvidence, EVIDENCE_DOMAIN_V1};
use laurn::transition::TransitionCommitment;
use rand::rngs::OsRng;
use std::path::Path;

#[test]
fn test_evidence_verification() {
    let mut csprng = OsRng;
    let signing_key = SigningKey::generate(&mut csprng);
    let verifying_key = signing_key.verifying_key();

    let issuer_bytes = verifying_key.to_bytes();
    let issuer = AuthorityId(issuer_bytes);

    let mut evidence = ExecutionEvidence {
        id: EvidenceId([1u8; 32]),
        evidence_type: EvidenceType::ServerAuthoritative,
        issuer,
        epoch_id: EpochId([10u8; 32]),
        timestamp_ms: 1234567890,
        transition_commitment: TransitionCommitment([2u8; 32]),
        raw_attestation: vec![0xca, 0xfe, 0xba, 0xbe],
        signature: [0u8; 64],
    };

    let payload = evidence.signature_payload();
    let signature = signing_key.sign(&payload);
    evidence.signature = signature.to_bytes();

    assert!(evidence.verify_signature(&verifying_key.to_bytes()));
}

#[test]
fn test_evidence_tampering() {
    let mut csprng = OsRng;
    let signing_key = SigningKey::generate(&mut csprng);
    let verifying_key = signing_key.verifying_key();

    let issuer = AuthorityId(verifying_key.to_bytes());

    let mut evidence = ExecutionEvidence {
        id: EvidenceId([1u8; 32]),
        evidence_type: EvidenceType::IntelSgx,
        issuer,
        epoch_id: EpochId([10u8; 32]),
        timestamp_ms: 1234567890,
        transition_commitment: TransitionCommitment([2u8; 32]),
        raw_attestation: vec![0xca, 0xfe, 0xba, 0xbe],
        signature: [0u8; 64],
    };

    let payload = evidence.signature_payload();
    let signature = signing_key.sign(&payload);
    evidence.signature = signature.to_bytes();

    // Alter timestamp
    evidence.timestamp_ms = 1234567891;
    assert!(!evidence.verify_signature(&verifying_key.to_bytes()));
}

#[test]
fn signature_payload_layout() {
    let evidence = ExecutionEvidence {
        id: EvidenceId([1u8; 32]),
        evidence_type: EvidenceType::AwsNitro,
        issuer: AuthorityId([3u8; 32]),
        epoch_id: EpochId([4u8; 32]),
        timestamp_ms: 0x0102,
        transition_commitment: TransitionCommitment([5u8; 32]),
        raw_attestation: vec![9, 9, 9],
        signature: [0u8; 64],
    };
    let p = evidence.signature_payload();
    let mut expected = Vec::new();
    expected.extend_from_slice(b"LAURN_EVIDENCE_V1");
    assert_eq!(&EVIDENCE_DOMAIN_V1, b"LAURN_EVIDENCE_V1");
    expected.extend_from_slice(&[1u8; 32]);
    expected.push(2);
    expected.extend_from_slice(&[3u8; 32]);
    expected.extend_from_slice(&[4u8; 32]);
    expected.extend_from_slice(&0x0102u64.to_le_bytes());
    expected.extend_from_slice(&[5u8; 32]);
    expected.extend_from_slice(blake3::hash(&[9, 9, 9]).as_bytes());
    assert_eq!(p, expected);
}

#[test]
fn attestation_changes_are_detected() {
    let signing_key = SigningKey::from_bytes(&[7u8; 32]);
    let key = signing_key.verifying_key().to_bytes();
    let mut evidence = ExecutionEvidence {
        id: EvidenceId([1u8; 32]),
        evidence_type: EvidenceType::ServerAuthoritative,
        issuer: AuthorityId(key),
        epoch_id: EpochId([2u8; 32]),
        timestamp_ms: 5,
        transition_commitment: TransitionCommitment([3u8; 32]),
        raw_attestation: vec![1],
        signature: [0u8; 64],
    };
    evidence.signature = signing_key.sign(&evidence.signature_payload()).to_bytes();
    assert!(evidence.verify_signature(&key));
    evidence.raw_attestation = vec![2];
    assert!(!evidence.verify_signature(&key));
}

#[test]
fn test_nitro_provider_unsupported_on_standard_hardware() {
    // Unless running inside an AWS Nitro Enclave, this must return UnsupportedPlatform.
    let provider = AwsNitroProvider;

    let result = provider.generate_evidence();

    // Only if /dev/nsm somehow exists locally would this return HardwareApiError.
    if !Path::new("/dev/nsm").exists() {
        assert_eq!(result.unwrap_err(), PlatformIntegrityError::UnsupportedPlatform);
    }
}

#[test]
fn test_sgx_provider_unsupported_on_standard_hardware() {
    let provider = IntelSgxProvider;
    let result = provider.generate_evidence();

    if !Path::new("/dev/sgx_enclave").exists() {
        assert_eq!(result.unwrap_err(), PlatformIntegrityError::UnsupportedPlatform);
    }
}

#[test]
fn platform_outcomes_and_messages() {
    assert_eq!(
        unlinked_platform_outcome(false, "x").unwrap_err(),
        PlatformIntegrityError::UnsupportedPlatform
    );
    let e = unlinked_platform_outcome(true, "SGX SDK not linked").unwrap_err();
    assert_eq!(e, PlatformIntegrityError::HardwareApiError("SGX SDK not linked".to_string()));
    assert_eq!(e.message(), "Hardware API error: SGX SDK not linked");
    assert_eq!(
        PlatformIntegrityError::UnsupportedPlatform.message(),
        "Platform integration is unavailable on this hardware"
    );
    assert_eq!(
        PlatformIntegrityError::KeyMaterialUnavailable.message(),
        "Platform key material is unavailable"
    );
}

#[test]
fn providers_probe_their_own_devices() {
    assert_eq!(nsm_device_path(), "/dev/nsm");
    assert_eq!(sgx_device_path(), "/dev/sgx_enclave");
    let nitro = AwsNitroProvider.generate_evidence().unwrap_err();
    if Path::new(nsm_device_path()).exists() {
        assert_eq!(
            nitro,
            PlatformIntegrityError::HardwareApiError("NSM driver library not linked".to_string())
        );
    } else {
        assert_eq!(nitro, PlatformIntegrityError::UnsupportedPlatform);
    }
}

#[test]
fn signature_payload_is_186_bytes() {
    let evidence = ExecutionEvidence {
        id: EvidenceId([0u8; 32]),
        evidence_type: EvidenceType::ServerAuthoritative,
        issuer: AuthorityId([0u8; 32]),
        epoch_id: EpochId([0u8; 32]),
        timestamp_ms: 0,
        transition_commitment: TransitionCommitment([0u8; 32]),
        raw_attestation: vec![1; 1000],
        signature: [0u8; 64],
    };
    assert_eq!(evidence.signature_payload().len(), 186);
}
