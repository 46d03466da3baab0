use ed25519_dalek::{Signer, SigningKey};
use laurn::authority::{
    Authority, AuthorityCapability, AuthorityEngine, AuthorityId, AuthorityRole, SessionBinding,
};
use laurn::epoch::EpochId;
use rand::rngs::OsRng;

fn generate_keypair() -> (SigningKey, AuthorityId) {
    let mut csprng = OsRng;
    let signing_key = SigningKey::generate(&mut csprng);
    let verifying_key = signing_key.verifying_key();
    (signing_key, AuthorityId(verifying_key.to_bytes()))
}

#[test]
fn test_authority_capabilities() -> Result<(), Box<dyn std::error::Error>> {
    let mut engine = AuthorityEngine::new();
    let (_, auth_id) = generate_keypair();

    let authority = Authority {
        id: auth_id,
        role: AuthorityRole::Client,
        capabilities: AuthorityCapability::CAN_SUBMIT_TRANSITION(),
        session_binding: None,
    };

    engine.register_authority(authority)?;

    assert!(engine.check_capability(&auth_id, AuthorityCapability::CAN_SUBMIT_TRANSITION()));
    assert!(!engine.check_capability(&auth_id, AuthorityCapability::CAN_AUTHORIZE_TIME()));

    // Unauthorized (unknown) authority checks gracefully fail
    let (_, unknown_id) = generate_keypair();
    assert!(!engine.check_capability(&unknown_id, AuthorityCapability::CAN_SUBMIT_TRANSITION()));
    Ok(())
}

#[test]
fn test_cryptographic_authentication() -> Result<(), Box<dyn std::error::Error>> {
    let mut engine = AuthorityEngine::new();
    let (signing_key, auth_id) = generate_keypair();

    let authority = Authority {
        id: auth_id,
        role: AuthorityRole::Server,
        capabilities: AuthorityCapability::CAN_ADMINISTER(),
        session_binding: None,
    };

    engine.register_authority(authority)?;

    let payload = b"state_transition_payload_12345";
    let signature = signing_key.sign(payload);

    // Valid signature should pass
    assert!(engine.verify_signature(&auth_id, payload, &signature.to_bytes()).is_ok());

    // Tampered payload should fail
    let bad_payload = b"state_transition_payload_99999";
    assert!(engine.verify_signature(&auth_id, bad_payload, &signature.to_bytes()).is_err());

    // Unauthorized authority trying to verify should fail
    let (_, unknown_id) = generate_keypair();
    assert!(engine.verify_signature(&unknown_id, payload, &signature.to_bytes()).is_err());
    Ok(())
}

#[test]
fn test_authority_rotation() -> Result<(), Box<dyn std::error::Error>> {
    let mut engine = AuthorityEngine::new();
    let (_, auth_id) = generate_keypair();

    let authority = Authority {
        id: auth_id,
        role: AuthorityRole::Client,
        capabilities: AuthorityCapability::CAN_SUBMIT_TRANSITION(),
        session_binding: None,
    };

    engine.register_authority(authority.clone())?;
    assert!(engine.check_capability(&auth_id, AuthorityCapability::CAN_SUBMIT_TRANSITION()));

    // Update capabilities
    let mut updated = authority;
    updated.capabilities =
        AuthorityCapability::CAN_SUBMIT_TRANSITION().union(AuthorityCapability::CAN_SPAWN());
    engine.update_authority(updated)?;
    assert!(engine.check_capability(&auth_id, AuthorityCapability::CAN_SPAWN()));

    // Remove authority
    engine.remove_authority(&auth_id)?;
    assert!(!engine.check_capability(&auth_id, AuthorityCapability::CAN_SUBMIT_TRANSITION()));
    Ok(())
}

#[test]
fn error_messages() {
    let mut engine = AuthorityEngine::new();
    let (signing_key, auth_id) = generate_keypair();
    let authority = Authority {
        id: auth_id,
        role: AuthorityRole::Arbiter,
        capabilities: AuthorityCapability::empty(),
        session_binding: Some(SessionBinding { epoch_id: EpochId([5; 32]) }),
    };
    assert_eq!(engine.update_authority(authority), Err("Authority not found"));
    assert_eq!(engine.remove_authority(&auth_id), Err("Authority not found"));
    assert_eq!(engine.register_authority(authority), Ok(()));
    assert_eq!(engine.register_authority(authority), Err("Authority already exists"));
    assert!(engine.is_registered(&auth_id));
    assert_eq!(engine.get(&auth_id).unwrap().role, AuthorityRole::Arbiter);

    let signature = signing_key.sign(b"x").to_bytes();
    assert_eq!(engine.verify_signature(&auth_id, b"y", &signature), Err("Invalid signature"));
    let (_, stranger) = generate_keypair();
    assert_eq!(engine.verify_signature(&stranger, b"x", &signature), Err("Unauthorized authority"));
}

#[test]
fn malformed_key_is_reported() {
    // Not every 32-byte string is a point on the curve; find one that is not.
    let mut engine = AuthorityEngine::new();
    let mut bad = None;
    for b in 0u8..=255 {
        let mut key = [0u8; 32];
        key[0] = b;
        key[31] = 0x7f;
        if ed25519_dalek::VerifyingKey::from_bytes(&key).is_err() {
            bad = Some(key);
            break;
        }
    }
    let key = bad.expect("some 32-byte string is not a valid point");
    let id = AuthorityId(key);
    engine
        .register_authority(Authority {
            id,
            role: AuthorityRole::Spectator,
            capabilities: AuthorityCapability::empty(),
            session_binding: None,
        })
        .unwrap();
    assert_eq!(engine.verify_signature(&id, b"x", &[0u8; 64]), Err("Malformed public key"));
}

#[test]
fn capability_bits() {
    let both = AuthorityCapability::CAN_SUBMIT_TRANSITION().union(AuthorityCapability::CAN_SPAWN());
    assert_eq!(both.bits(), 3);
    assert!(both.contains(AuthorityCapability::CAN_SPAWN()));
    assert!(!both.contains(AuthorityCapability::CAN_ADMINISTER()));
    assert_eq!(AuthorityCapability::all().bits(), 0x8000_0007);
    assert!(AuthorityCapability::from_bits(0x10).is_none());
    assert_eq!(AuthorityCapability::from_bits(4), Some(AuthorityCapability::CAN_AUTHORIZE_TIME()));
    assert_eq!(AuthorityCapability::from_bits_truncate(0xffff_ffff).bits(), 0x8000_0007);
    assert_eq!(AuthorityCapability::from_bits_retain(0x10).bits(), 0x10);
    assert!(AuthorityCapability::empty().is_empty());
    assert!(!AuthorityCapability::CAN_ADMINISTER().is_empty());
}
