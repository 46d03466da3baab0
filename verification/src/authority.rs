//! Authorities: the sources of state transitions, their roles and
//! capabilities, and Ed25519 authentication of what they sign.
use crate::epoch::EpochId;
use crate::keyed::{
    keyed_map, keys_unique, lemma_keyed_dom, lemma_keyed_index, lemma_keyed_push,
    lemma_keyed_remove, lemma_keyed_update, lemma_keys_unique_push,
};
use crate::wire::eq_bytes32;
use ed25519_dalek::Verifier;
use vstd::prelude::*;

verus! {

/// A unique identifier for a source of state transitions.
/// Backed by a 32-byte Ed25519 public key.
#[derive(Debug, Clone, Copy, PartialEq, Eq, Hash)]
pub struct AuthorityId(pub [u8; 32]);

impl View for AuthorityId {
    type V = Seq<u8>;

    open spec fn view(&self) -> Seq<u8> {
        self.0@
    }
}

/// The assigned role of an Authority within the simulation.
#[derive(Debug, Clone, Copy, PartialEq, Eq, Structural)]
pub enum AuthorityRole {
    /// A connected player or agent.
    Client,
    /// The canonical game server.
    Server,
    /// An overarching arbiter for resolving disputes or controlling time.
    Arbiter,
    /// A read-only observer.
    Spectator,
}

/// The bit of `CAN_SUBMIT_TRANSITION`.
pub const CAN_SUBMIT_TRANSITION_BIT: u32 = 1;

/// The bit of `CAN_SPAWN`.
pub const CAN_SPAWN_BIT: u32 = 2;

/// The bit of `CAN_AUTHORIZE_TIME`.
pub const CAN_AUTHORIZE_TIME_BIT: u32 = 4;

/// The bit of `CAN_ADMINISTER`.
pub const CAN_ADMINISTER_BIT: u32 = 0x8000_0000;

/// All defined capability bits.
pub const ALL_CAPABILITY_BITS: u32 = 0x8000_0007;

/// Granular permissions assigned to an Authority: a `u32` bit mask.
#[derive(Debug, Clone, Copy, PartialEq, Eq, Structural, Hash)]
pub struct AuthorityCapability {
    bits: u32,
}

impl AuthorityCapability {
    /// The bit mask.
    pub closed spec fn spec_bits(self) -> u32 {
        self.bits
    }

    /// Whether every bit of `other` is set in `self`.
    pub open spec fn spec_contains(self, other: Self) -> bool {
        self.spec_bits() & other.spec_bits() == other.spec_bits()
    }

    /// Whether only defined bits are set.
    pub open spec fn spec_valid(self) -> bool {
        self.spec_bits() & !ALL_CAPABILITY_BITS == 0
    }

    /// Can submit standard state transitions (e.g., input).
    #[allow(non_snake_case)]
    pub fn CAN_SUBMIT_TRANSITION() -> (r: Self)
        ensures
            r.spec_bits() == CAN_SUBMIT_TRANSITION_BIT,
    {
        AuthorityCapability { bits: CAN_SUBMIT_TRANSITION_BIT }
    }

    /// Can spawn or destroy entities.
    #[allow(non_snake_case)]
    pub fn CAN_SPAWN() -> (r: Self)
        ensures
            r.spec_bits() == CAN_SPAWN_BIT,
    {
        AuthorityCapability { bits: CAN_SPAWN_BIT }
    }

    /// Can explicitly advance or mutate the epoch/time.
    #[allow(non_snake_case)]
    pub fn CAN_AUTHORIZE_TIME() -> (r: Self)
        ensures
            r.spec_bits() == CAN_AUTHORIZE_TIME_BIT,
    {
        AuthorityCapability { bits: CAN_AUTHORIZE_TIME_BIT }
    }

    /// Has absolute authority over the entire simulation (Admin).
    #[allow(non_snake_case)]
    pub fn CAN_ADMINISTER() -> (r: Self)
        ensures
            r.spec_bits() == CAN_ADMINISTER_BIT,
    {
        AuthorityCapability { bits: CAN_ADMINISTER_BIT }
    }

    /// The empty capability set.
    pub closed spec fn empty_spec() -> Self {
        AuthorityCapability { bits: 0 }
    }

    /// No capability.
    pub fn empty() -> (r: Self)
        ensures
            r.spec_bits() == 0,
            r == Self::empty_spec(),
    {
        AuthorityCapability { bits: 0 }
    }

    /// Every defined capability.
    pub fn all() -> (r: Self)
        ensures
            r.spec_bits() == ALL_CAPABILITY_BITS,
    {
        AuthorityCapability { bits: ALL_CAPABILITY_BITS }
    }

    /// The raw bit mask.
    pub fn bits(&self) -> (r: u32)
        ensures
            r == self.spec_bits(),
    {
        self.bits
    }

    /// Builds a capability set from bits, refusing undefined bits.
    pub fn from_bits(bits: u32) -> (r: Option<Self>)
        ensures
            r matches Some(c) ==> c.spec_bits() == bits,
            r is Some <==> bits & !ALL_CAPABILITY_BITS == 0,
    {
        if bits & !ALL_CAPABILITY_BITS == 0 {
            Some(AuthorityCapability { bits })
        } else {
            None
        }
    }

    /// Builds a capability set from bits, dropping undefined bits.
    pub fn from_bits_truncate(bits: u32) -> (r: Self)
        ensures
            r.spec_bits() == bits & ALL_CAPABILITY_BITS,
    {
        AuthorityCapability { bits: bits & ALL_CAPABILITY_BITS }
    }

    /// Builds a capability set from bits, keeping every bit.
    pub fn from_bits_retain(bits: u32) -> (r: Self)
        ensures
            r.spec_bits() == bits,
    {
        AuthorityCapability { bits }
    }

    /// The union of two capability sets, in specifications.
    pub closed spec fn union_spec(self, other: Self) -> Self {
        AuthorityCapability { bits: self.bits | other.bits }
    }

    /// The union of two capability sets.
    pub fn union(self, other: Self) -> (r: Self)
        ensures
            r.spec_bits() == self.spec_bits() | other.spec_bits(),
            r == self.union_spec(other),
    {
        AuthorityCapability { bits: self.bits | other.bits }
    }

    /// Whether every capability of `other` is in `self`.
    pub fn contains(&self, other: Self) -> (r: bool)
        ensures
            r == self.spec_contains(other),
    {
        self.bits & other.bits == other.bits
    }

    /// Whether no capability is set.
    pub fn is_empty(&self) -> (r: bool)
        ensures
            r == (self.spec_bits() == 0),
    {
        self.bits == 0
    }
}

/// Explicitly binds an Authority to a specific Epoch,
/// preventing authorities from operating outside their granted session.
#[derive(Debug, Clone, Copy, PartialEq, Eq)]
pub struct SessionBinding {
    pub epoch_id: EpochId,
}

/// Represents an authenticated actor in the system.
#[derive(Debug, Clone, Copy, PartialEq, Eq)]
pub struct Authority {
    pub id: AuthorityId,
    pub role: AuthorityRole,
    pub capabilities: AuthorityCapability,
    pub session_binding: Option<SessionBinding>,
}

pub open spec fn authority_key() -> spec_fn(Authority) -> Seq<u8> {
    |a: Authority| a.id@
}

pub open spec fn authority_val() -> spec_fn(Authority) -> Authority {
    |a: Authority| a
}

// ---------------------------------------------------------------------------
// Ed25519
// ---------------------------------------------------------------------------

/// Whether `ed25519_dalek::VerifyingKey::from_bytes` accepts these 32 bytes
/// (they decompress to a curve point).
pub uninterp spec fn ed25519_key_decodes(key: Seq<u8>) -> bool;

/// Whether `ed25519_dalek::VerifyingKey::verify_strict`, for the key decoded
/// from `key`, accepts `sig` (64 bytes) over `msg`.
pub uninterp spec fn ed25519_strict_accepts(key: Seq<u8>, msg: Seq<u8>, sig: Seq<u8>) -> bool;

/// Whether `ed25519_dalek::Verifier::verify` (the non-strict check), for the
/// key decoded from `key`, accepts `sig` (64 bytes) over `msg`.
pub uninterp spec fn ed25519_accepts(key: Seq<u8>, msg: Seq<u8>, sig: Seq<u8>) -> bool;

/// The 32-byte public key that `ed25519_dalek::SigningKey::from_bytes`
/// derives from a 32-byte secret key.
pub uninterp spec fn ed25519_public_key(secret: Seq<u8>) -> Seq<u8>;

/// The 64-byte signature that `ed25519_dalek::SigningKey::sign` makes over
/// `msg` with the key derived from `secret`. Ed25519 signing (RFC 8032) is
/// deterministic: the nonce is derived from the key and the message.
pub uninterp spec fn ed25519_signature(secret: Seq<u8>, msg: Seq<u8>) -> Seq<u8>;

/// Builds a `SigningKey` from the secret with `SigningKey::from_bytes` and
/// returns `verifying_key().to_bytes()`; the contract names the result as
/// the public key of the secret, and states that it decodes again with
/// `VerifyingKey::from_bytes` (it is the compression of a curve point).
#[verifier::external_body]
pub(crate) fn ed25519_public_key_of(secret: &[u8; 32]) -> (r: [u8; 32])
    ensures
        r@ == ed25519_public_key(secret@),
        ed25519_key_decodes(r@),
{
    ed25519_dalek::SigningKey::from_bytes(secret).verifying_key().to_bytes()
}

/// Builds a `SigningKey` from the secret and signs `msg` with
/// `Signer::sign`, returning the signature's bytes; the contract names the
/// result as the signature of `msg` under the secret, and states what the
/// crate documents of it: `Verifier::verify` with the matching public key
/// accepts it over `msg`. That `verify_strict` accepts it is not stated:
/// the strict check also refuses a signature whose `R` has small order.
#[verifier::external_body]
pub(crate) fn ed25519_sign(secret: &[u8; 32], msg: &[u8]) -> (r: [u8; 64])
    ensures
        r@ == ed25519_signature(secret@, msg@),
        ed25519_accepts(ed25519_public_key(secret@), msg@, r@),
{
    ed25519_dalek::Signer::sign(&ed25519_dalek::SigningKey::from_bytes(secret), msg).to_bytes()
}

/// The outcome of checking an Ed25519 signature.
#[derive(Debug, Clone, Copy, PartialEq, Eq, Structural)]
pub enum SignatureCheck {
    /// The public key bytes are not a valid compressed point.
    MalformedKey,
    /// The key is valid and the signature does not verify.
    Invalid,
    /// The signature verifies.
    Valid,
}

/// Decodes `key` with `VerifyingKey::from_bytes`, builds the signature with
/// `Signature::from_bytes`, and calls `VerifyingKey::verify_strict`. The
/// contract only names the outcome of each step; the curve arithmetic is
/// not stated.
#[verifier::external_body]
pub(crate) fn ed25519_verify_strict(key: &[u8; 32], msg: &[u8], sig: &[u8; 64]) -> (r:
    SignatureCheck)
    ensures
        (r == SignatureCheck::MalformedKey) == !ed25519_key_decodes(key@),
        (r == SignatureCheck::Valid) == (ed25519_key_decodes(key@) && ed25519_strict_accepts(
            key@,
            msg@,
            sig@,
        )),
{
    match ed25519_dalek::VerifyingKey::from_bytes(key) {
        Err(_) => SignatureCheck::MalformedKey,
        Ok(vk) => match vk.verify_strict(msg, &ed25519_dalek::Signature::from_bytes(sig)) {
            Ok(()) => SignatureCheck::Valid,
            Err(_) => SignatureCheck::Invalid,
        },
    }
}

/// Decodes `key` with `VerifyingKey::from_bytes`, builds the signature with
/// `Signature::from_bytes`, and calls `Verifier::verify`. The contract only
/// names the outcome of each step.
#[verifier::external_body]
pub(crate) fn ed25519_verify(key: &[u8; 32], msg: &[u8], sig: &[u8; 64]) -> (r: SignatureCheck)
    ensures
        (r == SignatureCheck::MalformedKey) == !ed25519_key_decodes(key@),
        (r == SignatureCheck::Valid) == (ed25519_key_decodes(key@) && ed25519_accepts(
            key@,
            msg@,
            sig@,
        )),
{
    match ed25519_dalek::VerifyingKey::from_bytes(key) {
        Err(_) => SignatureCheck::MalformedKey,
        Ok(vk) => match vk.verify(msg, &ed25519_dalek::Signature::from_bytes(sig)) {
            Ok(()) => SignatureCheck::Valid,
            Err(_) => SignatureCheck::Invalid,
        },
    }
}

// ---------------------------------------------------------------------------
// Engine
// ---------------------------------------------------------------------------

/// The engine responsible for managing authorities, their capabilities,
/// and verifying their cryptographic signatures.
#[derive(Debug, Default)]
pub struct AuthorityEngine {
    authorities: Vec<Authority>,
}

impl AuthorityEngine {
    /// The registered authorities, by identifier bytes.
    pub closed spec fn authorities_view(&self) -> Map<Seq<u8>, Authority> {
        keyed_map(self.authorities@, authority_key(), authority_val())
    }

    /// Identifiers are unique.
    pub closed spec fn wf(&self) -> bool {
        keys_unique(self.authorities@, authority_key())
    }

    pub fn new() -> (r: Self)
        ensures
            r.wf(),
            r.authorities_view() == Map::<Seq<u8>, Authority>::empty(),
    {
        AuthorityEngine { authorities: Vec::new() }
    }

    fn find(&self, id: &AuthorityId) -> (r: Option<usize>)
        requires
            self.wf(),
        ensures
            match r {
                Some(i) => i < self.authorities@.len() && self.authorities@[i as int].id@ == id@
                    && self.authorities_view().dom().contains(id@)
                    && self.authorities_view()[id@] == self.authorities@[i as int],
                None => !self.authorities_view().dom().contains(id@),
            },
    {
        let mut i: usize = 0;
        while i < self.authorities.len()
            invariant
                self.wf(),
                i <= self.authorities@.len(),
                forall|j: int| 0 <= j < i ==> (#[trigger] self.authorities@[j]).id@ != id@,
            decreases self.authorities@.len() - i,
        {
            if eq_bytes32(&self.authorities[i].id.0, &id.0) {
                proof {
                    lemma_keyed_index(self.authorities@, authority_key(), authority_val(), i as int);
                }
                return Some(i);
            }
            i = i + 1;
        }
        proof {
            lemma_keyed_dom(self.authorities@, authority_key(), authority_val(), id@);
            assert forall|j: int| 0 <= j < self.authorities@.len() implies (
            #[trigger] authority_key()(self.authorities@[j])) != id@ by {}
        }
        None
    }

    /// Looks up a registered authority.
    pub fn get(&self, id: &AuthorityId) -> (r: Option<&Authority>)
        requires
            self.wf(),
        ensures
            match r {
                Some(a) => self.authorities_view().dom().contains(id@) && *a
                    == self.authorities_view()[id@],
                None => !self.authorities_view().dom().contains(id@),
            },
    {
        match self.find(id) {
            Some(i) => Some(&self.authorities[i]),
            None => None,
        }
    }

    /// Whether the authority is registered.
    pub fn is_registered(&self, id: &AuthorityId) -> (r: bool)
        requires
            self.wf(),
        ensures
            r == self.authorities_view().dom().contains(id@),
    {
        self.find(id).is_some()
    }

    /// Registers a new authority in the engine.
    ///
    /// # Errors
    /// Returns an error if the authority already exists.
    pub fn register_authority(&mut self, authority: Authority) -> (r: Result<(), &'static str>)
        requires
            old(self).wf(),
        ensures
            final(self).wf(),
            old(self).authorities_view().dom().contains(authority.id@) ==> r == Err::<(), &'static str>("Authority already exists") && final(self).authorities_view() == old(self).authorities_view(),
            !old(self).authorities_view().dom().contains(authority.id@) ==> r is Ok && final(self).authorities_view() == old(self).authorities_view().insert(authority.id@, authority),
    {
        match self.find(&authority.id) {
            Some(_) => Err("Authority already exists"),
            None => {
                proof {
                    lemma_keyed_push(self.authorities@, authority_key(), authority_val(), authority);
                    lemma_keys_unique_push(self.authorities@, authority_key(), authority_val(), authority);
                }
                self.authorities.push(authority);
                Ok(())
            },
        }
    }

    /// Updates or rotates an existing authority (e.g., changing roles or capabilities).
    ///
    /// # Errors
    /// Returns an error if the authority does not exist.
    pub fn update_authority(&mut self, authority: Authority) -> (r: Result<(), &'static str>)
        requires
            old(self).wf(),
        ensures
            final(self).wf(),
            !old(self).authorities_view().dom().contains(authority.id@) ==> r == Err::<(), &'static str>("Authority not found") && final(self).authorities_view() == old(self).authorities_view(),
            old(self).authorities_view().dom().contains(authority.id@) ==> r is Ok && final(self).authorities_view() == old(self).authorities_view().insert(authority.id@, authority),
    {
        match self.find(&authority.id) {
            None => Err("Authority not found"),
            Some(i) => {
                proof {
                    lemma_keyed_update(self.authorities@, authority_key(), authority_val(), i as int, authority);
                }
                self.authorities.set(i, authority);
                Ok(())
            },
        }
    }

    /// Removes an authority, immediately revoking all capabilities.
    ///
    /// # Errors
    /// Returns an error if the authority does not exist.
    pub fn remove_authority(&mut self, id: &AuthorityId) -> (r: Result<(), &'static str>)
        requires
            old(self).wf(),
        ensures
            final(self).wf(),
            !old(self).authorities_view().dom().contains(id@) ==> r == Err::<(), &'static str>(
                "Authority not found",
            ) && final(self).authorities_view() == old(self).authorities_view(),
            old(self).authorities_view().dom().contains(id@) ==> r is Ok && final(self).authorities_view() == old(self).authorities_view().remove(id@),
    {
        match self.find(id) {
            None => Err("Authority not found"),
            Some(i) => {
                proof {
                    lemma_keyed_remove(self.authorities@, authority_key(), authority_val(), i as int);
                }
                self.authorities.remove(i);
                Ok(())
            },
        }
    }

    /// Checks if a given authority has a specific capability.
    /// Returns false if the authority doesn't exist or lacks the capability.
    pub fn check_capability(&self, id: &AuthorityId, capability: AuthorityCapability) -> (r: bool)
        requires
            self.wf(),
        ensures
            r == has_capability(self.authorities_view(), id@, capability),
    {
        match self.find(id) {
            Some(i) => self.authorities[i].capabilities.contains(capability),
            None => false,
        }
    }

    /// Validates an Ed25519 signature over a payload using the authority's
    /// public key (its identifier), with strict verification.
    ///
    /// # Errors
    /// Returns an error if the authority does not exist, if the public key is
    /// malformed, or if the signature is invalid.
    pub fn verify_signature(
        &self,
        id: &AuthorityId,
        payload: &[u8],
        signature_bytes: &[u8; 64],
    ) -> (r: Result<(), &'static str>)
        requires
            self.wf(),
        ensures
            r == signature_outcome(
                self.authorities_view().dom().contains(id@),
                id@,
                payload@,
                signature_bytes@,
            ),
    {
        if self.find(id).is_none() {
            return Err("Unauthorized authority");
        }
        match ed25519_verify_strict(&id.0, payload, signature_bytes) {
            SignatureCheck::MalformedKey => Err("Malformed public key"),
            SignatureCheck::Invalid => Err("Invalid signature"),
            SignatureCheck::Valid => Ok(()),
        }
    }
}

/// What `verify_signature` answers for an authority that is (or is not)
/// registered, with key `key`, over `msg`, with signature `sig`.
pub open spec fn signature_outcome(registered: bool, key: Seq<u8>, msg: Seq<u8>, sig: Seq<u8>) -> Result<
    (),
    &'static str,
> {
    if !registered {
        Err("Unauthorized authority")
    } else if !ed25519_key_decodes(key) {
        Err("Malformed public key")
    } else if !ed25519_strict_accepts(key, msg, sig) {
        Err("Invalid signature")
    } else {
        Ok(())
    }
}

/// Whether the authorities `m` register `id` with every capability of `cap`.
pub open spec fn has_capability(
    m: Map<Seq<u8>, Authority>,
    id: Seq<u8>,
    cap: AuthorityCapability,
) -> bool {
    m.dom().contains(id) && m[id].capabilities.spec_contains(cap)
}

// ---------------------------------------------------------------------------
// Laws
// ---------------------------------------------------------------------------

/// Once an authority is registered or updated, it holds exactly the
/// capabilities it was given.
pub proof fn lemma_capabilities_as_given(
    m: Map<Seq<u8>, Authority>,
    a: Authority,
    cap: AuthorityCapability,
)
    ensures
        has_capability(m.insert(a.id@, a), a.id@, cap) == a.capabilities.spec_contains(cap),
{
}

/// Removing an authority revokes every capability it held, and its
/// signatures are then refused as unauthorized.
pub proof fn lemma_removal_revokes(
    m: Map<Seq<u8>, Authority>,
    id: Seq<u8>,
    cap: AuthorityCapability,
    msg: Seq<u8>,
    sig: Seq<u8>,
)
    ensures
        !has_capability(m.remove(id), id, cap),
        signature_outcome(m.remove(id).dom().contains(id), id, msg, sig) == Err::<
            (),
            &'static str,
        >("Unauthorized authority"),
{
}

/// Registering, updating or removing one authority leaves every other
/// authority's capabilities as they were.
pub proof fn lemma_other_authorities_unaffected(
    m: Map<Seq<u8>, Authority>,
    a: Authority,
    other: Seq<u8>,
    cap: AuthorityCapability,
)
    requires
        other != a.id@,
    ensures
        has_capability(m.insert(a.id@, a), other, cap) == has_capability(m, other, cap),
        has_capability(m.remove(a.id@), other, cap) == has_capability(m, other, cap),
{
}

/// A union of capability sets contains each of them, and containment is
/// transitive.
pub proof fn lemma_capability_union(
    a: AuthorityCapability,
    b: AuthorityCapability,
    c: AuthorityCapability,
)
    ensures
        a.union_spec(b).spec_contains(a),
        a.union_spec(b).spec_contains(b),
        a.spec_contains(b) && b.spec_contains(c) ==> a.spec_contains(c),
{
    let (x, y, z) = (a.spec_bits(), b.spec_bits(), c.spec_bits());
    assert((x | y) & x == x) by (bit_vector);
    assert((x | y) & y == y) by (bit_vector);
    assert((x & y == y && y & z == z) ==> x & z == z) by (bit_vector);
}

/// The empty capability set contains only requirements that every set
/// meets: whatever the empty set contains, any set contains.
pub proof fn lemma_empty_contains_only_nothing(c: AuthorityCapability, m: AuthorityCapability)
    ensures
        AuthorityCapability::empty_spec().spec_contains(m) ==> c.spec_contains(m),
{
    let a = c.spec_bits();
    let b = m.spec_bits();
    assert((0u32 & b) == b ==> (a & b) == b) by (bit_vector);
}

} // verus!
