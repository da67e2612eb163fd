//! The two-input Poseidon hash over the BN254 scalar field, in the circom
//! parametrisation, on big-endian byte strings.
use crate::field::is_field_element;
use ark_bn254::Fr;
use light_poseidon::{Poseidon, PoseidonBytesHasher};
use vstd::prelude::*;

verus! {

/// The digest that the circom-compatible Poseidon hash of width three assigns
/// to two field elements, all three as big-endian byte strings.
pub uninterp spec fn poseidon_pair(left: Seq<u8>, right: Seq<u8>) -> Seq<u8>;

/// Calls `light_poseidon::Poseidon::<Fr>::new_circom(2)` and then
/// `PoseidonBytesHasher::hash_bytes_be` on the two inputs.
///
/// Believed of that call: a hasher for two inputs always exists; the hash
/// is refused exactly when one of the inputs, read big-endian, is not below
/// the field's order; otherwise the digest depends on the two inputs alone
/// and is itself the canonical big-endian form of a field element.
#[verifier::external_body]
fn poseidon_hash_bytes(left: &[u8; 32], right: &[u8; 32]) -> (digest: Option<[u8; 32]>)
    ensures
        digest.is_some() == (is_field_element(left@) && is_field_element(right@)),
        digest.is_some() ==> digest.unwrap()@ == poseidon_pair(left@, right@),
        digest.is_some() ==> is_field_element(digest.unwrap()@),
{
    let mut hasher = Poseidon::<Fr>::new_circom(2).ok()?;
    hasher.hash_bytes_be(&[left, right]).ok()
}

/// Hashes two tree nodes into their parent.
pub fn hash_pair(left: [u8; 32], right: [u8; 32]) -> (digest: [u8; 32])
    requires
        is_field_element(left@),
        is_field_element(right@),
    ensures
        digest@ == poseidon_pair(left@, right@),
        is_field_element(digest@),
{
    match poseidon_hash_bytes(&left, &right) {
        Some(digest) => digest,
        None => vstd::pervasive::unreached(),
    }
}

} // verus!
