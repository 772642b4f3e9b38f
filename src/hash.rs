use sha3::{Digest, Keccak256};
use vstd::prelude::*;

verus! {

/// The Keccak-256 digest of `data`.
pub uninterp spec fn keccak256_of(data: Seq<u8>) -> Seq<u8>;

/// Relies on `sha3::Keccak256` (`Digest::update`, `Digest::finalize`): the
/// 32-byte Keccak-256 digest of the input.
#[verifier::external_body]
pub(crate) fn keccak256(data: &[u8]) -> (r: [u8; 32])
    ensures
        r@ == keccak256_of(data@),
{
    let mut hasher = Keccak256::default();
    hasher.update(data);
    hasher.finalize().into()
}

} // verus!
