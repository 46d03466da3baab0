//! Deterministic fixed-point geometry: vectors and transforms whose
//! coordinates are `I48F16` fixed-point numbers (48 integer bits, 16
//! fractional bits), which every platform handles identically.
use fixed::types::I48F16;
use vstd::prelude::*;

verus! {

// The fixed-point type and the type-level integers that give its number of
// fractional bits; values of them are carried through, never inspected.
#[verifier::external_type_specification]
#[verifier::external_body]
#[verifier::reject_recursive_types(Frac)]
pub struct ExFixedI64<Frac>(fixed::FixedI64<Frac>);

#[verifier::external_type_specification]
#[verifier::external_body]
#[verifier::reject_recursive_types(U)]
#[verifier::reject_recursive_types(B)]
pub struct ExUInt<U, B>(typenum::UInt<U, B>);

#[verifier::external_type_specification]
#[verifier::external_body]
pub struct ExUTerm(typenum::UTerm);

#[verifier::external_type_specification]
#[verifier::external_body]
pub struct ExB0(typenum::B0);

#[verifier::external_type_specification]
#[verifier::external_body]
pub struct ExB1(typenum::B1);

/// A deterministic 3D vector in fixed-point arithmetic. `I48F16` gives a
/// wide range (centimetre scale) while keeping exact binary fractions.
#[derive(Debug, Clone, Copy, PartialEq, Eq)]
pub struct DeterministicVector3 {
    pub x: I48F16,
    pub y: I48F16,
    pub z: I48F16,
}

impl DeterministicVector3 {
    /// Constructs a deterministic vector from fixed-point coordinates.
    pub fn new(x: I48F16, y: I48F16, z: I48F16) -> (r: Self)
        ensures
            r.x == x,
            r.y == y,
            r.z == z,
    {
        DeterministicVector3 { x, y, z }
    }
}

/// A deterministic transform in fixed-point arithmetic. The rotation is a
/// vector of quantized Euler angles.
#[derive(Debug, Clone, Copy, PartialEq, Eq)]
pub struct DeterministicTransform {
    pub location: DeterministicVector3,
    pub rotation: DeterministicVector3,
    pub scale: DeterministicVector3,
}

impl DeterministicTransform {
    pub fn new(
        location: DeterministicVector3,
        rotation: DeterministicVector3,
        scale: DeterministicVector3,
    ) -> (r: Self)
        ensures
            r.location == location,
            r.rotation == rotation,
            r.scale == scale,
    {
        DeterministicTransform { location, rotation, scale }
    }
}

} // verus!
