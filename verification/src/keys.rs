//! The node's Ed25519 identity: generating it, storing it sealed under a
//! passphrase (or as hex when none is given), reading it back, and signing
//! and checking gossip with it.

use vstd::prelude::*;
use vstd::utf8::{decode_utf8, encode_utf8, valid_utf8};
use chacha20poly1305::aead::{Aead, KeyInit};
use crate::gateway::{hex_decode, hex_encode, spec_hex_decode, spec_hex_encode};
use crate::hashing::{digest_eq, random_bytes32};
use crate::protocol::SignedNetworkMessage;
use crate::rpc_auth::{base64_decode, base64_encode, base64_standard_decode, base64_standard_encode, utf8_text};
use crate::types::NodeId;

verus! {

/// The first bytes of a sealed identity: "ONVMID01".
pub const ENC_HEADER: [u8; 8] = [79, 78, 86, 77, 73, 68, 48, 49];

/// Bytes of the passphrase salt in a sealed identity.
pub const SALT_LEN: usize = 16;

/// Bytes of the nonce in a sealed identity.
pub const NONCE_LEN: usize = 12;

/// The Ed25519 public key of a 32-byte secret key.
pub uninterp spec fn ed25519_public_of(secret: Seq<u8>) -> [u8; 32];

/// The Ed25519 signature of `message` under a 32-byte secret key.
pub uninterp spec fn ed25519_sign(secret: Seq<u8>, message: Seq<u8>) -> [u8; 64];

/// Whether 32 bytes are the compressed form of a curve point.
pub uninterp spec fn ed25519_public_valid(public: Seq<u8>) -> bool;

/// Whether a 64-byte signature of `message` passes strict verification
/// under a valid public key.
pub uninterp spec fn ed25519_verify_strict(public: Seq<u8>, message: Seq<u8>, signature: Seq<u8>) -> bool;

/// The 32-byte Argon2id key (default parameters) of a passphrase and salt.
pub uninterp spec fn argon2id_key(passphrase: Seq<u8>, salt: Seq<u8>) -> [u8; 32];

/// The ChaCha20-Poly1305 ciphertext (with its tag) of `plaintext`, without
/// associated data.
pub uninterp spec fn chacha20poly1305_seal(key: Seq<u8>, nonce: Seq<u8>, plaintext: Seq<u8>) -> Seq<u8>;

/// The plaintext of a ChaCha20-Poly1305 ciphertext without associated
/// data, if it authenticates.
pub uninterp spec fn chacha20poly1305_open(key: Seq<u8>, nonce: Seq<u8>, ciphertext: Seq<u8>) -> Option<Seq<u8>>;

/// Calls `ed25519_dalek::SigningKey::from_bytes` and `verifying_key`: the
/// public key of the secret, as bytes.
#[verifier::external_body]
fn ed25519_public(secret: &[u8; 32]) -> (res: [u8; 32])
    ensures
        res == ed25519_public_of(secret@),
{
    ed25519_dalek::SigningKey::from_bytes(secret).verifying_key().to_bytes()
}

/// Calls `Signer::sign` of `ed25519_dalek::SigningKey` (deterministic,
/// RFC 8032): the signature's bytes.
#[verifier::external_body]
fn ed25519_sign_bytes(secret: &[u8; 32], message: &[u8]) -> (res: [u8; 64])
    ensures
        res == ed25519_sign(secret@, message@),
{
    ed25519_dalek::Signer::sign(&ed25519_dalek::SigningKey::from_bytes(secret), message).to_bytes()
}

/// Calls `ed25519_dalek::VerifyingKey::from_bytes`: whether the bytes are a
/// public key.
#[verifier::external_body]
fn ed25519_check_public(public: &[u8; 32]) -> (res: bool)
    ensures
        res == ed25519_public_valid(public@),
{
    ed25519_dalek::VerifyingKey::from_bytes(public).is_ok()
}

/// Calls `VerifyingKey::from_bytes`, `Signature::from_slice` (which takes
/// exactly 64 bytes) and `verify_strict`.
#[verifier::external_body]
fn ed25519_verify(public: &[u8; 32], message: &[u8], signature: &[u8]) -> (res: bool)
    ensures
        res == (ed25519_public_valid(public@) && signature@.len() == 64
            && ed25519_verify_strict(public@, message@, signature@)),
{
    let Ok(key) = ed25519_dalek::VerifyingKey::from_bytes(public) else {
        return false;
    };
    let Ok(sig) = ed25519_dalek::Signature::from_slice(signature) else {
        return false;
    };
    key.verify_strict(message, &sig).is_ok()
}

/// Calls `argon2::Argon2::default().hash_password_into` into 32 bytes; with
/// a 16-byte salt it fails only for a passphrase longer than `u32::MAX`.
#[verifier::external_body]
fn argon2_derive(passphrase: &[u8], salt: &[u8; 16]) -> (res: Option<[u8; 32]>)
    ensures
        res is Some <==> passphrase@.len() <= 0xFFFF_FFFF,
        res matches Some(k) ==> k == argon2id_key(passphrase@, salt@),
{
    let mut out = [0u8; 32];
    argon2::Argon2::default().hash_password_into(passphrase, salt, &mut out).ok()?;
    Some(out)
}

/// Calls `ChaCha20Poly1305::new` and `encrypt` without associated data:
/// the ciphertext carries a 16-byte tag after the encrypted bytes and opens,
/// under the same key and nonce, to the plaintext. The cipher refuses only
/// a plaintext of `u32::MAX` or more 64-byte blocks.
#[verifier::external_body]
fn chacha_seal(key: &[u8; 32], nonce: &[u8; 12], plaintext: &[u8]) -> (res: Option<Vec<u8>>)
    ensures
        res is Some <==> plaintext@.len() / 64 < 0xFFFF_FFFF,
        res matches Some(c) ==> c@ == chacha20poly1305_seal(key@, nonce@, plaintext@)
            && c@.len() == plaintext@.len() + 16
            && chacha20poly1305_open(key@, nonce@, c@) == Some(plaintext@),
{
    let cipher = chacha20poly1305::ChaCha20Poly1305::new(key.into());
    cipher.encrypt(chacha20poly1305::Nonce::from_slice(nonce), plaintext).ok()
}

/// Calls `ChaCha20Poly1305::new` and `decrypt` without associated data.
#[verifier::external_body]
fn chacha_open(key: &[u8; 32], nonce: &[u8; 12], ciphertext: &[u8]) -> (res: Option<Vec<u8>>)
    ensures
        match chacha20poly1305_open(key@, nonce@, ciphertext@) {
            Some(b) => res matches Some(v) && v@ == b,
            None => res is None,
        },
{
    let cipher = chacha20poly1305::ChaCha20Poly1305::new(key.into());
    cipher.decrypt(chacha20poly1305::Nonce::from_slice(nonce), ciphertext).ok()
}

/// A node's identity keys.
#[derive(Clone, Copy, Debug, PartialEq, Eq)]
pub struct NodeKeys {
    pub secret: [u8; 32],
    pub public: [u8; 32],
    pub node_id: NodeId,
}

/// Why an identity could not be had.
#[derive(Clone, Copy, Debug, PartialEq, Eq, Structural)]
pub enum IdentityError {
    /// The identity is sealed and no passphrase was given.
    PassphraseRequired,
    /// The passphrase is too long to derive a key from.
    KdfFailed,
    /// The sealed identity does not open under the passphrase.
    DecryptFailed,
    /// The secret is not 32 bytes.
    BadSecret,
    /// The identity is stored as plain hex and that was not allowed.
    PlaintextDisallowed,
    /// The plain identity is not text.
    NotUtf8,
    /// The plain identity is not hexadecimal.
    BadHex,
    /// Sealing failed.
    SealFailed,
}

impl NodeKeys {
    /// The public key and node id belong to the secret.
    pub open spec fn wf(&self) -> bool {
        &&& self.public == ed25519_public_of(self.secret@)
        &&& self.node_id == NodeId(self.public)
    }

    /// The keys of a secret.
    pub fn from_secret(secret: [u8; 32]) -> (res: Self)
        ensures
            res.secret == secret,
            res.wf(),
    {
        let public = ed25519_public(&secret);
        NodeKeys { secret, public, node_id: NodeId::from_public_key(&public) }
    }

    /// Fresh keys from a random secret.
    pub fn generate() -> (res: Self)
        ensures
            res.wf(),
    {
        NodeKeys::from_secret(random_bytes32())
    }

    /// The signature of `data` under the secret.
    pub fn sign(&self, data: &[u8]) -> (res: [u8; 64])
        ensures
            res == ed25519_sign(self.secret@, data@),
    {
        ed25519_sign_bytes(&self.secret, data)
    }

    /// Whether `signature` of `data` passes strict verification under `public`.
    pub fn verify(&self, data: &[u8], signature: &[u8; 64], public: &[u8; 32]) -> (res: bool)
        ensures
            res == (ed25519_public_valid(public@) && ed25519_verify_strict(public@, data@, signature@)),
    {
        ed25519_verify(public, data, signature)
    }
}

/// Whether a character is white space (the Unicode `White_Space` property).
pub open spec fn spec_is_whitespace(c: char) -> bool {
    let u = c as u32;
    (0x9 <= u <= 0xD) || u == 0x20 || u == 0x85 || u == 0xA0 || u == 0x1680 || (0x2000 <= u <= 0x200A)
        || u == 0x2028 || u == 0x2029 || u == 0x202F || u == 0x205F || u == 0x3000
}

/// Text without leading white space.
pub open spec fn spec_trim_start(s: Seq<char>) -> Seq<char>
    decreases s.len(),
{
    if s.len() > 0 && spec_is_whitespace(s[0]) { spec_trim_start(s.drop_first()) } else { s }
}

/// Text without trailing white space.
pub open spec fn spec_trim_end(s: Seq<char>) -> Seq<char>
    decreases s.len(),
{
    if s.len() > 0 && spec_is_whitespace(s.last()) { spec_trim_end(s.drop_last()) } else { s }
}

/// Text without leading or trailing white space.
pub open spec fn spec_trim(s: Seq<char>) -> Seq<char> {
    spec_trim_end(spec_trim_start(s))
}

fn is_whitespace(c: char) -> (res: bool)
    ensures
        res == spec_is_whitespace(c),
{
    let u = c as u32;
    (0x9 <= u && u <= 0xD) || u == 0x20 || u == 0x85 || u == 0xA0 || u == 0x1680 || (0x2000 <= u && u <= 0x200A)
        || u == 0x2028 || u == 0x2029 || u == 0x202F || u == 0x205F || u == 0x3000
}

/// The text without leading or trailing white space.
pub fn trim_text(text: &str) -> (res: &str)
    ensures
        res@ == spec_trim(text@),
{
    let n = text.unicode_len();
    let mut i: usize = 0;
    assert(text@.skip(0) =~= text@);
    while i < n && is_whitespace(text.get_char(i))
        invariant
            i <= n,
            n == text@.len(),
            spec_trim_start(text@) == spec_trim_start(text@.skip(i as int)),
        decreases n - i,
    {
        assert(text@.skip(i as int).drop_first() =~= text@.skip(i + 1));
        i = i + 1;
    }
    let ghost u = text@.skip(i as int);
    assert(spec_trim_start(text@) == u) by {
        if i == n {
            assert(u.len() == 0);
        } else {
            assert(u[0] == text@[i as int]);
        }
    }
    let mut e: usize = n;
    assert(u.take(u.len() as int) =~= u);
    while e > i && is_whitespace(text.get_char(e - 1))
        invariant
            i <= e <= n,
            n == text@.len(),
            u == text@.skip(i as int),
            spec_trim_end(u) == spec_trim_end(u.take(e - i)),
        decreases e - i,
    {
        assert(u.take(e - i).drop_last() =~= u.take(e - 1 - i));
        assert(u.take(e - i).last() == text@[e - 1]);
        e = e - 1;
    }
    assert(spec_trim_end(u) == u.take(e - i)) by {
        if e > i {
            assert(u.take(e - i).last() == text@[e - 1]);
        }
    }
    assert(text@.subrange(i as int, e as int) =~= u.take(e - i));
    text.substring_char(i, e)
}

/// The decoded bytes of a sealed identity, when the file is one: base64
/// text whose bytes are longer than the header, salt and nonce, and start
/// with the header.
pub open spec fn spec_sealed_bytes(data: Seq<u8>) -> Option<Seq<u8>> {
    if !valid_utf8(data) {
        None
    } else {
        match base64_standard_decode(decode_utf8(data)) {
            None => None,
            Some(d) => if d.len() > 36 && d.take(8) == ENC_HEADER@ { Some(d) } else { None },
        }
    }
}

/// The secret a sealed identity opens to under a passphrase.
pub open spec fn spec_unseal(passphrase: Seq<u8>, d: Seq<u8>) -> Result<Seq<u8>, IdentityError> {
    if passphrase.len() > 0xFFFF_FFFF {
        Err(IdentityError::KdfFailed)
    } else {
        match chacha20poly1305_open(argon2id_key(passphrase, d.subrange(8, 24))@, d.subrange(24, 36), d.skip(36)) {
            None => Err(IdentityError::DecryptFailed),
            Some(p) => if p.len() == 32 { Ok(p) } else { Err(IdentityError::BadSecret) },
        }
    }
}

/// The secret an identity file holds: a sealed one opens under the
/// passphrase; any other is read, when allowed, as hex text with white
/// space around it.
pub open spec fn spec_read_identity(data: Seq<u8>, passphrase: Option<Seq<u8>>, allow_plaintext: bool) -> Result<Seq<u8>, IdentityError> {
    match spec_sealed_bytes(data) {
        Some(d) => match passphrase {
            None => Err(IdentityError::PassphraseRequired),
            Some(p) => spec_unseal(p, d),
        },
        None => if !allow_plaintext {
            Err(IdentityError::PlaintextDisallowed)
        } else if !valid_utf8(data) {
            Err(IdentityError::NotUtf8)
        } else {
            match spec_hex_decode(spec_trim(decode_utf8(data))) {
                None => Err(IdentityError::BadHex),
                Some(b) => if b.len() == 32 { Ok(b) } else { Err(IdentityError::BadSecret) },
            }
        },
    }
}

/// A passphrase as bytes.
pub open spec fn spec_passphrase(passphrase: Option<&str>) -> Option<Seq<u8>> {
    match passphrase {
        Some(p) => Some(encode_utf8(p@)),
        None => None,
    }
}

fn copy_slice(bytes: &[u8]) -> (res: Vec<u8>)
    ensures
        res@ == bytes@,
{
    let mut out: Vec<u8> = Vec::new();
    let mut i: usize = 0;
    while i < bytes.len()
        invariant
            i <= bytes@.len(),
            out@ == bytes@.take(i as int),
        decreases bytes@.len() - i,
    {
        out.push(bytes[i]);
        assert(bytes@.take(i + 1) =~= bytes@.take(i as int).push(bytes@[i as int]));
        i = i + 1;
    }
    assert(bytes@.take(bytes@.len() as int) =~= bytes@);
    out
}

fn append_bytes(buf: &mut Vec<u8>, bytes: &[u8])
    ensures
        final(buf)@ == old(buf)@ + bytes@,
{
    let ghost start = buf@;
    let mut i: usize = 0;
    while i < bytes.len()
        invariant
            i <= bytes@.len(),
            buf@ == start + bytes@.take(i as int),
        decreases bytes@.len() - i,
    {
        buf.push(bytes[i]);
        assert(bytes@.take(i + 1) =~= bytes@.take(i as int).push(bytes@[i as int]));
        assert(buf@ =~= start + bytes@.take(i + 1));
        i = i + 1;
    }
    assert(bytes@.take(bytes@.len() as int) =~= bytes@);
}

fn to_array32(v: &Vec<u8>) -> (res: [u8; 32])
    requires
        v@.len() == 32,
    ensures
        res@ == v@,
{
    let mut out = [0u8; 32];
    let mut i: usize = 0;
    while i < 32
        invariant
            i <= 32,
            v@.len() == 32,
            forall|j: int| 0 <= j < i ==> out@[j] == v@[j],
        decreases 32 - i,
    {
        out[i] = v[i];
        i = i + 1;
    }
    assert(out@ =~= v@);
    out
}

fn sealed_bytes(data: &[u8]) -> (res: Option<Vec<u8>>)
    ensures
        match spec_sealed_bytes(data@) {
            Some(d) => res matches Some(v) && v@ == d,
            None => res is None,
        },
{
    let text = match utf8_text(copy_slice(data)) {
        Some(t) => t,
        None => return None,
    };
    let d = match base64_decode(text.as_str()) {
        Some(d) => d,
        None => return None,
    };
    if d.len() <= 36 {
        return None;
    }
    let mut i: usize = 0;
    while i < 8
        invariant
            i <= 8,
            d@.len() > 36,
            valid_utf8(data@),
            base64_standard_decode(decode_utf8(data@)) == Some(d@),
            forall|j: int| 0 <= j < i ==> d@[j] == ENC_HEADER@[j],
        decreases 8 - i,
    {
        if d[i] != ENC_HEADER[i] {
            assert(d@.take(8)[i as int] != ENC_HEADER@[i as int]);
            return None;
        }
        i = i + 1;
    }
    assert(d@.take(8) =~= ENC_HEADER@);
    Some(d)
}

fn unseal(passphrase: &[u8], d: &Vec<u8>) -> (res: Result<[u8; 32], IdentityError>)
    requires
        d@.len() > 36,
    ensures
        match spec_unseal(passphrase@, d@) {
            Ok(s) => res matches Ok(k) && k@ == s,
            Err(e) => res == Err::<[u8; 32], IdentityError>(e),
        },
{
    let mut salt = [0u8; 16];
    let mut i: usize = 0;
    while i < 16
        invariant
            i <= 16,
            d@.len() > 36,
            forall|j: int| 0 <= j < i ==> salt@[j] == d@[8 + j],
        decreases 16 - i,
    {
        salt[i] = d[8 + i];
        i = i + 1;
    }
    assert(salt@ =~= d@.subrange(8, 24));
    let mut nonce = [0u8; 12];
    let mut k: usize = 0;
    while k < 12
        invariant
            k <= 12,
            d@.len() > 36,
            forall|j: int| 0 <= j < k ==> nonce@[j] == d@[24 + j],
        decreases 12 - k,
    {
        nonce[k] = d[24 + k];
        k = k + 1;
    }
    assert(nonce@ =~= d@.subrange(24, 36));
    let mut ct: Vec<u8> = Vec::new();
    let mut m: usize = 36;
    while m < d.len()
        invariant
            36 <= m <= d@.len(),
            ct@ == d@.subrange(36, m as int),
        decreases d@.len() - m,
    {
        ct.push(d[m]);
        assert(d@.subrange(36, m + 1) =~= d@.subrange(36, m as int).push(d@[m as int]));
        m = m + 1;
    }
    assert(ct@ =~= d@.skip(36));
    let key = match argon2_derive(passphrase, &salt) {
        Some(key) => key,
        None => return Err(IdentityError::KdfFailed),
    };
    let plain = match chacha_open(&key, &nonce, ct.as_slice()) {
        Some(p) => p,
        None => return Err(IdentityError::DecryptFailed),
    };
    if plain.len() != 32 {
        return Err(IdentityError::BadSecret);
    }
    Ok(to_array32(&plain))
}

/// Read the identity in an identity file's bytes. A sealed identity needs
/// the passphrase it was sealed under; any other is hex text of the secret,
/// read only when `allow_plaintext` is set.
pub fn read_identity(data: &[u8], passphrase: Option<&str>, allow_plaintext: bool) -> (res: Result<NodeKeys, IdentityError>)
    ensures
        match spec_read_identity(data@, spec_passphrase(passphrase), allow_plaintext) {
            Ok(s) => res matches Ok(k) && k.secret@ == s && k.wf(),
            Err(e) => res == Err::<NodeKeys, IdentityError>(e),
        },
{
    match sealed_bytes(data) {
        Some(d) => {
            let pass = match passphrase {
                Some(p) => p,
                None => return Err(IdentityError::PassphraseRequired),
            };
            match unseal(pass.as_bytes(), &d) {
                Ok(secret) => Ok(NodeKeys::from_secret(secret)),
                Err(e) => Err(e),
            }
        },
        None => {
            if !allow_plaintext {
                return Err(IdentityError::PlaintextDisallowed);
            }
            let text = match utf8_text(copy_slice(data)) {
                Some(t) => t,
                None => return Err(IdentityError::NotUtf8),
            };
            let trimmed = trim_text(text.as_str());
            let bytes = match hex_decode(trimmed) {
                Some(b) => b,
                None => return Err(IdentityError::BadHex),
            };
            if bytes.len() != 32 {
                return Err(IdentityError::BadSecret);
            }
            Ok(NodeKeys::from_secret(to_array32(&bytes)))
        },
    }
}

/// Seal a secret under a passphrase with the given salt and nonce: base64
/// text of the header, salt, nonce and ciphertext. What it writes is read
/// back, under the same passphrase, as the same secret.
pub fn seal_identity(secret: &[u8; 32], passphrase: &str, salt: &[u8; 16], nonce: &[u8; 12]) -> (res: Result<Vec<u8>, IdentityError>)
    ensures
        res matches Ok(file) ==> forall|allow: bool| #[trigger] spec_read_identity(file@, Some(encode_utf8(passphrase@)), allow)
            == Ok::<Seq<u8>, IdentityError>(secret@),
        res is Ok <==> encode_utf8(passphrase@).len() <= 0xFFFF_FFFF,
        res is Err ==> res == Err::<Vec<u8>, IdentityError>(IdentityError::KdfFailed),
        res matches Ok(file) ==> file@ == encode_utf8(base64_standard_encode(
            ENC_HEADER@ + salt@ + nonce@ + chacha20poly1305_seal(
                argon2id_key(encode_utf8(passphrase@), salt@)@,
                nonce@,
                secret@,
            ),
        )),
{
    let pass = passphrase.as_bytes();
    let key = match argon2_derive(pass, salt) {
        Some(k) => k,
        None => return Err(IdentityError::KdfFailed),
    };
    let ct = match chacha_seal(&key, nonce, secret) {
        Some(c) => c,
        None => return Err(IdentityError::SealFailed),
    };
    let mut out: Vec<u8> = Vec::new();
    append_bytes(&mut out, &ENC_HEADER);
    append_bytes(&mut out, salt);
    append_bytes(&mut out, nonce);
    append_bytes(&mut out, ct.as_slice());
    let text = base64_encode(out.as_slice());
    let file = copy_slice(text.as_str().as_bytes());
    proof {
        let d = out@;
        vstd::utf8::encode_utf8_valid_utf8(text@);
        vstd::utf8::encode_utf8_decode_utf8(text@);
        assert(d.take(8) =~= ENC_HEADER@);
        assert(d.subrange(8, 24) =~= salt@);
        assert(d.subrange(24, 36) =~= nonce@);
        assert(d.skip(36) =~= ct@);
        assert(d =~= ENC_HEADER@ + salt@ + nonce@ + ct@);
        assert(spec_sealed_bytes(file@) == Some(d));
        assert forall|allow: bool| #[trigger] spec_read_identity(file@, Some(encode_utf8(passphrase@)), allow)
            == Ok::<Seq<u8>, IdentityError>(secret@) by {
            assert(spec_unseal(pass@, d) == Ok::<Seq<u8>, IdentityError>(secret@));
        }
    }
    Ok(file)
}

/// The file that stores `keys`: sealed under the passphrase with a fresh
/// random salt and nonce, or hex text of the secret without one.
pub fn write_identity(keys: &NodeKeys, passphrase: Option<&str>) -> (res: Result<Vec<u8>, IdentityError>)
    ensures
        passphrase is None ==> (res matches Ok(file) && file@ == encode_utf8(spec_hex_encode(keys.secret@))),
        passphrase matches Some(p) ==> (res matches Ok(file) ==> forall|allow: bool|
            #[trigger] spec_read_identity(file@, Some(encode_utf8(p@)), allow) == Ok::<Seq<u8>, IdentityError>(keys.secret@)),
        passphrase matches Some(p) ==> (res is Ok <==> encode_utf8(p@).len() <= 0xFFFF_FFFF),
{
    match passphrase {
        Some(p) => {
            let r1 = random_bytes32();
            let r2 = random_bytes32();
            let mut salt = [0u8; 16];
            let mut i: usize = 0;
            while i < 16
                invariant
                    i <= 16,
                decreases 16 - i,
            {
                salt[i] = r1[i];
                i = i + 1;
            }
            let mut nonce = [0u8; 12];
            let mut k: usize = 0;
            while k < 12
                invariant
                    k <= 12,
                decreases 12 - k,
            {
                nonce[k] = r2[k];
                k = k + 1;
            }
            seal_identity(&keys.secret, p, &salt, &nonce)
        },
        None => {
            let text = hex_encode(&keys.secret);
            Ok(copy_slice(text.as_str().as_bytes()))
        },
    }
}

/// Fresh keys and the file that stores them.
pub fn generate_identity(passphrase: Option<&str>) -> (res: Result<(NodeKeys, Vec<u8>), IdentityError>)
    ensures
        res matches Ok((keys, file)) ==> keys.wf() && (passphrase matches Some(p) ==> forall|allow: bool|
            #[trigger] spec_read_identity(file@, Some(encode_utf8(p@)), allow) == Ok::<Seq<u8>, IdentityError>(keys.secret@)),
        passphrase is None ==> res is Ok,
        passphrase matches Some(p) ==> (res is Ok <==> encode_utf8(p@).len() <= 0xFFFF_FFFF),
{
    let keys = NodeKeys::generate();
    match write_identity(&keys, passphrase) {
        Ok(file) => Ok((keys, file)),
        Err(e) => Err(e),
    }
}

/// Why a gossip message was refused.
#[derive(Clone, Copy, Debug, PartialEq, Eq, Structural)]
pub enum MessageAuthError {
    /// The public key is not a curve point.
    BadPublicKey,
    /// The publisher is not the node of that public key.
    PublisherMismatch,
    /// The signature is not 64 bytes.
    BadSignature,
    /// The signature does not verify.
    InvalidSignature,
}

/// Sign an encoded gossip message as this node.
pub fn sign_network_message(keys: &NodeKeys, payload: Vec<u8>) -> (res: SignedNetworkMessage)
    ensures
        res.payload@ == payload@,
        res.publisher == keys.node_id,
        res.public_key == keys.public,
        res.signature@ == ed25519_sign(keys.secret@, payload@)@,
{
    let sig = keys.sign(payload.as_slice());
    let signature = copy_slice(&sig);
    SignedNetworkMessage { payload, publisher: keys.node_id, public_key: keys.public, signature }
}

/// Check a signed gossip message: the public key parses, it is the
/// publisher's, and the signature of the payload verifies strictly.
pub fn verify_signed_message(env: &SignedNetworkMessage) -> (res: Result<(), MessageAuthError>)
    ensures
        res == (if !ed25519_public_valid(env.public_key@) {
            Err(MessageAuthError::BadPublicKey)
        } else if env.publisher != NodeId(env.public_key) {
            Err(MessageAuthError::PublisherMismatch)
        } else if env.signature@.len() != 64 {
            Err(MessageAuthError::BadSignature)
        } else if !ed25519_verify_strict(env.public_key@, env.payload@, env.signature@) {
            Err(MessageAuthError::InvalidSignature)
        } else {
            Ok(())
        }),
{
    if !ed25519_check_public(&env.public_key) {
        return Err(MessageAuthError::BadPublicKey);
    }
    if !digest_eq(&env.publisher.0, &env.public_key) {
        assert(env.publisher != NodeId(env.public_key));
        return Err(MessageAuthError::PublisherMismatch);
    }
    if env.signature.len() != 64 {
        return Err(MessageAuthError::BadSignature);
    }
    if !ed25519_verify(&env.public_key, env.payload.as_slice(), env.signature.as_slice()) {
        return Err(MessageAuthError::InvalidSignature);
    }
    Ok(())
}

} // verus!
