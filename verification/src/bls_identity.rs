//! The stored BLS consensus identity: the secret key sealed under a key
//! derived from the node's Ed25519 secret, bound to the node's id, and
//! written as base64 text.

use vstd::prelude::*;
use vstd::utf8::encode_utf8;
use crate::bls::{bls_public_from_secret, public_from_secret, BlsPublicKey, BlsSecretKey};
use crate::hashing::random_bytes32;
use crate::rpc_auth::{
    base64_decode, base64_encode, base64_standard_decode, base64_standard_encode, hkdf_expand, hkdf_sha256,
    xchacha20poly1305_open, xchacha20poly1305_seal, xchacha_open, xchacha_seal,
};
use crate::types::NodeId;

verus! {

/// The first bytes of a stored identity: "ONVMBLS1".
pub const BLS_KEY_HEADER: [u8; 8] = [79, 78, 86, 77, 66, 76, 83, 49];

/// The file name of the stored identity within the data directory.
pub const BLS_IDENTITY_FILE: &'static str = "bls_identity";

/// HKDF info of the storage key.
pub const BLS_STORAGE_INFO: &'static str = "onvm-bls-identity";

/// Why a stored identity could not be read.
#[derive(Clone, Copy, Debug, PartialEq, Eq, Structural)]
pub enum BlsIdentityError {
    /// The text is not base64.
    BadEncoding,
    /// Fewer bytes than the header and the nonce.
    TooShort,
    /// The header is not ours.
    BadHeader,
    /// The ciphertext does not open under this node's key and id.
    DecryptFailed,
    /// What it opens to is not a 32-byte secret.
    BadKeyLength,
    /// The secret is not a BLS secret key.
    InvalidSecretKey,
    /// Sealing failed.
    SealFailed,
}

/// The key the identity is sealed under: HKDF-SHA256 of the node's Ed25519
/// secret, without salt, with info "onvm-bls-identity".
pub open spec fn spec_storage_key(ed25519_secret: Seq<u8>) -> Seq<u8> {
    hkdf_sha256(None, ed25519_secret, encode_utf8(BLS_STORAGE_INFO@), 32)
}

/// The key the identity is sealed under.
pub fn derive_bls_storage_key(ed25519_secret: &[u8; 32]) -> (res: [u8; 32])
    ensures
        res@ == spec_storage_key(ed25519_secret@),
{
    let okm = hkdf_expand(None, ed25519_secret, BLS_STORAGE_INFO.as_bytes(), 32);
    let mut out = [0u8; 32];
    let mut i: usize = 0;
    while i < 32
        invariant
            i <= 32,
            okm@.len() == 32,
            forall|j: int| 0 <= j < i ==> out@[j] == okm@[j],
        decreases 32 - i,
    {
        out[i] = okm[i];
        i = i + 1;
    }
    assert(out@ =~= okm@);
    out
}

/// The secret a stored identity opens to under `key` for node `node`.
pub open spec fn spec_open_identity(text: Seq<char>, key: Seq<u8>, node: Seq<u8>) -> Result<Seq<u8>, BlsIdentityError> {
    match base64_standard_decode(text) {
        None => Err(BlsIdentityError::BadEncoding),
        Some(d) => if d.len() < 32 {
            Err(BlsIdentityError::TooShort)
        } else if d.take(8) != BLS_KEY_HEADER@ {
            Err(BlsIdentityError::BadHeader)
        } else {
            match xchacha20poly1305_open(key, d.subrange(8, 32), d.skip(32), node) {
                None => Err(BlsIdentityError::DecryptFailed),
                Some(p) => if p.len() != 32 { Err(BlsIdentityError::BadKeyLength) } else { Ok(p) },
            }
        },
    }
}

fn header_matches(d: &Vec<u8>) -> (res: bool)
    requires
        d@.len() >= 8,
    ensures
        res == (d@.take(8) == BLS_KEY_HEADER@),
{
    let mut i: usize = 0;
    while i < 8
        invariant
            i <= 8,
            d@.len() >= 8,
            forall|j: int| 0 <= j < i ==> d@[j] == BLS_KEY_HEADER@[j],
        decreases 8 - i,
    {
        if d[i] != BLS_KEY_HEADER[i] {
            assert(d@.take(8)[i as int] != BLS_KEY_HEADER@[i as int]);
            return false;
        }
        i = i + 1;
    }
    assert(d@.take(8) =~= BLS_KEY_HEADER@);
    true
}

/// Read a stored identity: decode the base64 text, check the header, and
/// open the ciphertext that follows the 24-byte nonce under `key`, bound to
/// `node`; the secret and its public key.
pub fn open_bls_identity(text: &str, key: &[u8; 32], node: &NodeId) -> (res: Result<(BlsSecretKey, BlsPublicKey), BlsIdentityError>)
    ensures
        match spec_open_identity(text@, key@, node.0@) {
            Err(e) => res == Err::<(BlsSecretKey, BlsPublicKey), BlsIdentityError>(e),
            Ok(sk) => match res {
                Ok((s, p)) => s.0@ == sk && bls_public_from_secret(sk) == Some(p.0),
                Err(e) => e == BlsIdentityError::InvalidSecretKey && bls_public_from_secret(sk) is None,
            },
        },
{
    let d = match base64_decode(text) {
        Some(d) => d,
        None => return Err(BlsIdentityError::BadEncoding),
    };
    if d.len() < 32 {
        return Err(BlsIdentityError::TooShort);
    }
    if !header_matches(&d) {
        return Err(BlsIdentityError::BadHeader);
    }
    let mut nonce = [0u8; 24];
    let mut i: usize = 0;
    while i < 24
        invariant
            i <= 24,
            d@.len() >= 32,
            forall|j: int| 0 <= j < i ==> nonce@[j] == d@[8 + j],
        decreases 24 - i,
    {
        nonce[i] = d[8 + i];
        i = i + 1;
    }
    assert(nonce@ =~= d@.subrange(8, 32));
    let mut ct: Vec<u8> = Vec::new();
    let mut k: usize = 32;
    while k < d.len()
        invariant
            32 <= k <= d@.len(),
            ct@ == d@.subrange(32, k as int),
        decreases d@.len() - k,
    {
        ct.push(d[k]);
        assert(d@.subrange(32, k + 1) =~= d@.subrange(32, k as int).push(d@[k as int]));
        k = k + 1;
    }
    assert(ct@ =~= d@.skip(32));
    let plain = match xchacha_open(key, &nonce, ct.as_slice(), &node.0) {
        Some(p) => p,
        None => return Err(BlsIdentityError::DecryptFailed),
    };
    if plain.len() != 32 {
        return Err(BlsIdentityError::BadKeyLength);
    }
    let mut sk = [0u8; 32];
    let mut m: usize = 0;
    while m < 32
        invariant
            m <= 32,
            plain@.len() == 32,
            forall|j: int| 0 <= j < m ==> sk@[j] == plain@[j],
        decreases 32 - m,
    {
        sk[m] = plain[m];
        m = m + 1;
    }
    assert(sk@ =~= plain@);
    let secret = BlsSecretKey(sk);
    match public_from_secret(&secret) {
        Ok(public) => Ok((secret, public)),
        Err(_) => Err(BlsIdentityError::InvalidSecretKey),
    }
}

fn append_bytes(buf: &mut Vec<u8>, bytes: &[u8])
    ensures
        final(buf)@ == old(buf)@ + bytes@,
{
    let ghost start = buf@;
    let mut i: usize = 0;
    while i < bytes.len()
        invariant
            i <= bytes@.len(),
            buf@ == start + bytes@.take(i as int),
        decreases bytes@.len() - i,
    {
        buf.push(bytes[i]);
        assert(bytes@.take(i + 1) =~= bytes@.take(i as int).push(bytes@[i as int]));
        assert(buf@ =~= start + bytes@.take(i + 1));
        i = i + 1;
    }
    assert(bytes@.take(bytes@.len() as int) =~= bytes@);
}

/// Seal `secret` under `key` for node `node` with `nonce`: the header, the
/// nonce and the ciphertext, as base64 text. What it writes opens to the
/// secret again.
pub fn seal_bls_identity(secret: &BlsSecretKey, key: &[u8; 32], node: &NodeId, nonce: &[u8; 24]) -> (res: Result<String, BlsIdentityError>)
    ensures
        res is Ok,
        res matches Ok(t) ==> spec_open_identity(t@, key@, node.0@) == Ok::<Seq<u8>, BlsIdentityError>(secret.0@),
        res matches Ok(t) ==> t@ == base64_standard_encode(
            BLS_KEY_HEADER@ + nonce@ + xchacha20poly1305_seal(key@, nonce@, secret.0@, node.0@),
        ),
{
    let ct = match xchacha_seal(key, nonce, &secret.0, &node.0) {
        Some(c) => c,
        None => return Err(BlsIdentityError::SealFailed),
    };
    let mut out: Vec<u8> = Vec::new();
    append_bytes(&mut out, &BLS_KEY_HEADER);
    append_bytes(&mut out, nonce);
    append_bytes(&mut out, ct.as_slice());
    let text = base64_encode(out.as_slice());
    proof {
        let d = out@;
        assert(d.take(8) =~= BLS_KEY_HEADER@);
        assert(d.subrange(8, 32) =~= nonce@);
        assert(d.skip(32) =~= ct@);
        assert(d =~= BLS_KEY_HEADER@ + nonce@ + ct@);
    }
    Ok(text)
}

/// Seal a secret for this node with a fresh random nonce, under the key
/// derived from its Ed25519 secret; it opens to the secret again.
pub fn store_bls_identity(secret: &BlsSecretKey, ed25519_secret: &[u8; 32], node: &NodeId) -> (res: Result<String, BlsIdentityError>)
    ensures
        res matches Ok(t) ==> spec_open_identity(t@, spec_storage_key(ed25519_secret@), node.0@)
            == Ok::<Seq<u8>, BlsIdentityError>(secret.0@),
        res is Ok,
{
    let key = derive_bls_storage_key(ed25519_secret);
    let random = random_bytes32();
    let mut nonce = [0u8; 24];
    let mut i: usize = 0;
    while i < 24
        invariant
            i <= 24,
        decreases 24 - i,
    {
        nonce[i] = random[i];
        i = i + 1;
    }
    seal_bls_identity(secret, &key, node, &nonce)
}

/// Read a stored identity of this node with the key derived from its
/// Ed25519 secret.
pub fn load_bls_identity(text: &str, ed25519_secret: &[u8; 32], node: &NodeId) -> (res: Result<(BlsSecretKey, BlsPublicKey), BlsIdentityError>)
    ensures
        match spec_open_identity(text@, spec_storage_key(ed25519_secret@), node.0@) {
            Err(e) => res == Err::<(BlsSecretKey, BlsPublicKey), BlsIdentityError>(e),
            Ok(sk) => match res {
                Ok((s, p)) => s.0@ == sk && bls_public_from_secret(sk) == Some(p.0),
                Err(e) => e == BlsIdentityError::InvalidSecretKey && bls_public_from_secret(sk) is None,
            },
        },
{
    let key = derive_bls_storage_key(ed25519_secret);
    open_bls_identity(text, &key, node)
}

} // verus!
