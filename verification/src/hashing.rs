//! BLAKE3 hashing used for content identifiers, Merkle nodes and Bloom filters.

use vstd::prelude::*;

verus! {

/// The 32-byte BLAKE3 digest of a byte string.
pub uninterp spec fn blake3_hash(data: Seq<u8>) -> [u8; 32];

/// The 32-byte keyed BLAKE3 digest of `data` under the 32-byte `key`.
pub uninterp spec fn blake3_keyed_hash(key: Seq<u8>, data: Seq<u8>) -> [u8; 32];

/// Calls `blake3::hash`: the digest of `data`, which depends on the bytes of
/// `data` alone and is named `blake3_hash`.
#[verifier::external_body]
pub(crate) fn hash_bytes(data: &[u8]) -> (res: [u8; 32])
    ensures
        res == blake3_hash(data@),
{
    *blake3::hash(data).as_bytes()
}

/// Calls `blake3::keyed_hash`: the keyed digest of `data` under `key`, which
/// depends on the two byte strings alone and is named `blake3_keyed_hash`.
#[verifier::external_body]
pub(crate) fn keyed_hash_bytes(key: &[u8; 32], data: &[u8]) -> (res: [u8; 32])
    ensures
        res == blake3_keyed_hash(key@, data@),
{
    *blake3::keyed_hash(key, data).as_bytes()
}

/// Calls `rand::RngCore::fill_bytes` on `rand::rngs::OsRng` for a 32-byte
/// buffer; nothing is promised of the bytes, which come from the operating
/// system.
#[verifier::external_body]
pub(crate) fn random_bytes32() -> (res: [u8; 32]) {
    let mut buf = [0u8; 32];
    rand::RngCore::fill_bytes(&mut rand::rngs::OsRng, &mut buf);
    buf
}

/// Byte-wise equality of two digests.
pub fn digest_eq(a: &[u8; 32], b: &[u8; 32]) -> (res: bool)
    ensures
        res == (*a == *b),
{
    let mut i: usize = 0;
    while i < 32
        invariant
            i <= 32,
            forall|j: int| 0 <= j < i ==> a@[j] == b@[j],
        decreases 32 - i,
    {
        if a[i] != b[i] {
            return false;
        }
        i = i + 1;
    }
    assert(*a =~= *b);
    true
}

} // verus!
