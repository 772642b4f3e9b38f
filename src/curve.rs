//! The Ed25519 group as the protocols see it: points and scalars travel as
//! their 32-byte compressed encodings, and the group law is computed by ark-ec.
use ark_ec::twisted_edwards::TECurveConfig;
use ark_ed25519::{EdwardsConfig, EdwardsProjective, Fr};
use ark_serialize::{CanonicalDeserialize, CanonicalSerialize, SerializationError};
use vstd::prelude::*;

verus! {

#[verifier::external_type_specification]
#[verifier::external_body]
pub struct ExSerializationError(SerializationError);

/// Encoding of `x·B`, `B` the curve's generator, for the scalar encoded by `x`;
/// `None` where the computation fails (`x` encodes no scalar).
pub uninterp spec fn ed25519_base_mul(x: Seq<u8>) -> Option<Seq<u8>>;

/// Encoding of `x·P` for the point encoded by `p` and the scalar encoded by `x`;
/// `None` where the computation fails (an input does not decode).
pub uninterp spec fn ed25519_mul(p: Seq<u8>, x: Seq<u8>) -> Option<Seq<u8>>;

/// Encoding of `P + Q`; `None` where the computation fails (an input does not
/// decode).
pub uninterp spec fn ed25519_add(p: Seq<u8>, q: Seq<u8>) -> Option<Seq<u8>>;

/// Encoding of `P − Q`; `None` where the computation fails (an input does not
/// decode).
pub uninterp spec fn ed25519_sub(p: Seq<u8>, q: Seq<u8>) -> Option<Seq<u8>>;

/// Encoding of the integer `i` as an element of the scalar field; `None` where
/// encoding fails.
pub uninterp spec fn ed25519_scalar_of(i: u64) -> Option<Seq<u8>>;

/// `p` is the compressed encoding of a point of the prime-order group.
pub uninterp spec fn ed25519_decodes(p: Seq<u8>) -> bool;

/// What a call that yields an encoding gives, with its error forgotten.
pub open spec fn outcome(r: Result<[u8; 32], SerializationError>) -> Option<Seq<u8>> {
    match r {
        Ok(v) => Some(v@),
        Err(_) => None,
    }
}

/// Relies on `CanonicalDeserialize::deserialize_compressed` of
/// `ark_ed25519::EdwardsProjective`: it fails unless the bytes encode a point on
/// the curve in the prime-order subgroup.
#[verifier::external_body]
pub(crate) fn point_check(p: &[u8; 32]) -> (r: Result<(), SerializationError>)
    ensures
        r is Ok <==> ed25519_decodes(p@),
{
    EdwardsProjective::deserialize_compressed(&p[..]).map(|_| ())
}

/// Relies on ark-ec's scalar multiplication of the generator
/// `EdwardsConfig::GENERATOR` by an `ark_ed25519::Fr`, with the compressed
/// (de)serialization of ark-serialize around it.
#[verifier::external_body]
pub(crate) fn base_mul(x: &[u8; 32]) -> (r: Result<[u8; 32], SerializationError>)
    ensures
        outcome(r) == ed25519_base_mul(x@),
{
    let x = Fr::deserialize_compressed(&x[..])?;
    let mut out = [0u8; 32];
    (EdwardsConfig::GENERATOR * x).serialize_compressed(&mut out[..])?;
    Ok(out)
}

/// Relies on ark-ec's scalar multiplication of an `EdwardsProjective` by an
/// `Fr`, with the compressed (de)serialization of ark-serialize around it.
#[verifier::external_body]
pub(crate) fn point_mul(p: &[u8; 32], x: &[u8; 32]) -> (r: Result<[u8; 32], SerializationError>)
    ensures
        outcome(r) == ed25519_mul(p@, x@),
{
    let p = EdwardsProjective::deserialize_compressed(&p[..])?;
    let x = Fr::deserialize_compressed(&x[..])?;
    let mut out = [0u8; 32];
    (p * x).serialize_compressed(&mut out[..])?;
    Ok(out)
}

/// Relies on ark-ec's point addition on `EdwardsProjective`, with the
/// compressed (de)serialization of ark-serialize around it.
#[verifier::external_body]
pub(crate) fn point_add(p: &[u8; 32], q: &[u8; 32]) -> (r: Result<[u8; 32], SerializationError>)
    ensures
        outcome(r) == ed25519_add(p@, q@),
{
    let p = EdwardsProjective::deserialize_compressed(&p[..])?;
    let q = EdwardsProjective::deserialize_compressed(&q[..])?;
    let mut out = [0u8; 32];
    (p + q).serialize_compressed(&mut out[..])?;
    Ok(out)
}

/// Relies on ark-ec's point subtraction on `EdwardsProjective`, with the
/// compressed (de)serialization of ark-serialize around it.
#[verifier::external_body]
pub(crate) fn point_sub(p: &[u8; 32], q: &[u8; 32]) -> (r: Result<[u8; 32], SerializationError>)
    ensures
        outcome(r) == ed25519_sub(p@, q@),
{
    let p = EdwardsProjective::deserialize_compressed(&p[..])?;
    let q = EdwardsProjective::deserialize_compressed(&q[..])?;
    let mut out = [0u8; 32];
    (p - q).serialize_compressed(&mut out[..])?;
    Ok(out)
}

/// Relies on `From<u64>` for `ark_ed25519::Fr` and its compressed serialization.
#[verifier::external_body]
pub(crate) fn scalar_of(i: u64) -> (r: Result<[u8; 32], SerializationError>)
    ensures
        outcome(r) == ed25519_scalar_of(i),
{
    let mut out = [0u8; 32];
    Fr::from(i).serialize_compressed(&mut out[..])?;
    Ok(out)
}

} // verus!
