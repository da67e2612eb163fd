//! Thirty-two byte strings read as big-endian numbers, and the test that such
//! a number is a canonical element of the BN254 scalar field.
use vstd::prelude::*;

verus! {

/// Length in bytes of a digest, a commitment or a nullifier.
pub const DIGEST_LEN: usize = 32;

/// The number that a byte string denotes when read big-endian.
pub open spec fn be_value(bytes: Seq<u8>) -> nat
    decreases bytes.len(),
{
    if bytes.len() == 0 {
        0
    } else {
        be_value(bytes.drop_last()) * 256 + bytes.last() as nat
    }
}

/// Order of the BN254 scalar field.
pub open spec fn scalar_modulus() -> nat {
    21888242871839275222246405745257275088548364400416034343698204186575808495617nat
}

/// A canonical field element: thirty-two bytes whose big-endian value lies
/// below the field's order.
pub open spec fn is_field_element(bytes: Seq<u8>) -> bool {
    bytes.len() == DIGEST_LEN && be_value(bytes) < scalar_modulus()
}

/// The all-zero digest, as a sequence of bytes.
pub open spec fn zero_digest() -> Seq<u8> {
    Seq::new(DIGEST_LEN as nat, |i: int| 0u8)
}

/// A string of zero bytes denotes zero.
pub proof fn lemma_be_value_zeros(bytes: Seq<u8>)
    requires
        forall|i: int| 0 <= i < bytes.len() ==> bytes[i] == 0,
    ensures
        be_value(bytes) == 0,
    decreases bytes.len(),
{
    if bytes.len() > 0 {
        lemma_be_value_zeros(bytes.drop_last());
    }
}

/// The all-zero digest is a field element.
pub proof fn lemma_zero_digest_in_field()
    ensures
        is_field_element(zero_digest()),
{
    lemma_be_value_zeros(zero_digest());
}

/// The field's order as thirty-two big-endian bytes.
pub const SCALAR_MODULUS_BE: [u8; 32] = [
    48, 100, 78, 114, 225, 49, 160, 41, 184, 80, 69, 182, 129, 129, 88, 93,
    40, 51, 232, 72, 121, 185, 112, 145, 67, 225, 245, 147, 240, 0, 0, 1,
];

/// Two strings of one length that first differ at `at` are ordered, as
/// numbers, the way their bytes at `at` are.
pub proof fn lemma_be_value_order(a: Seq<u8>, b: Seq<u8>, at: int)
    requires
        a.len() == b.len(),
        0 <= at < a.len(),
        forall|j: int| 0 <= j < at ==> a[j] == b[j],
        a[at] < b[at],
    ensures
        be_value(a) < be_value(b),
    decreases a.len(),
{
    if at == a.len() - 1 {
        assert(a.drop_last() =~= b.drop_last());
    } else {
        lemma_be_value_order(a.drop_last(), b.drop_last(), at);
    }
}

/// The bytes of `SCALAR_MODULUS_BE` denote the field's order.
pub proof fn lemma_modulus_bytes()
    ensures
        be_value(SCALAR_MODULUS_BE@) == scalar_modulus(),
{
    reveal_with_fuel(be_value, 33);
}

/// Tests whether thirty-two bytes are a canonical field element.
pub fn in_scalar_field(bytes: &[u8; 32]) -> (ok: bool)
    ensures
        ok == is_field_element(bytes@),
{
    proof {
        lemma_modulus_bytes();
    }
    let mut i: usize = 0;
    while i < 32
        invariant
            0 <= i <= 32,
            be_value(SCALAR_MODULUS_BE@) == scalar_modulus(),
            forall|j: int| 0 <= j < i ==> bytes@[j] == SCALAR_MODULUS_BE@[j],
        decreases 32 - i,
    {
        if bytes[i] < SCALAR_MODULUS_BE[i] {
            proof {
                lemma_be_value_order(bytes@, SCALAR_MODULUS_BE@, i as int);
            }
            return true;
        }
        if bytes[i] > SCALAR_MODULUS_BE[i] {
            proof {
                lemma_be_value_order(SCALAR_MODULUS_BE@, bytes@, i as int);
            }
            return false;
        }
        i += 1;
    }
    assert(bytes@ =~= SCALAR_MODULUS_BE@);
    false
}

/// Tests whether two digests hold the same bytes.
pub fn same_digest(a: &[u8; 32], b: &[u8; 32]) -> (same: bool)
    ensures
        same == (*a == *b),
{
    let mut i: usize = 0;
    while i < 32
        invariant
            0 <= i <= 32,
            forall|j: int| 0 <= j < i ==> a@[j] == b@[j],
        decreases 32 - i,
    {
        if a[i] != b[i] {
            return false;
        }
        i += 1;
    }
    assert(*a =~= *b);
    true
}

} // verus!
