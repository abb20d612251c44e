//! Authentication of RPC requests: the keys derived from a project secret,
//! the signed canonical form of a request, and the decryption of responses.

use vstd::prelude::*;
use hmac::Mac;
use base64::Engine;
use chacha20poly1305::aead::{Aead, KeyInit, Payload};
use vstd::utf8::{decode_utf8, encode_utf8, valid_utf8};
use crate::gateway::{hex_decode, hex_encode, spec_hex_decode, spec_hex_encode};

verus! {

/// HKDF info of the RPC keys: the bytes of "onvm-rpc-auth".
pub const RPC_AUTH_INFO: [u8; 13] = [111, 110, 118, 109, 45, 114, 112, 99, 45, 97, 117, 116, 104];

/// The HKDF-SHA256 output of `len` bytes for these inputs.
pub uninterp spec fn hkdf_sha256(salt: Option<Seq<u8>>, ikm: Seq<u8>, info: Seq<u8>, len: nat) -> Seq<u8>;

/// The HMAC-SHA256 tag of `message` under `key`.
pub uninterp spec fn hmac_sha256(key: Seq<u8>, message: Seq<u8>) -> [u8; 32];

/// The standard base64 text (with padding) of some bytes.
pub uninterp spec fn base64_standard_encode(bytes: Seq<u8>) -> Seq<char>;

/// The bytes that standard base64 text (with padding) encodes, if it is such text.
pub uninterp spec fn base64_standard_decode(text: Seq<char>) -> Option<Seq<u8>>;

/// The plaintext of an XChaCha20-Poly1305 ciphertext, if it authenticates.
pub uninterp spec fn xchacha20poly1305_open(key: Seq<u8>, nonce: Seq<u8>, ciphertext: Seq<u8>, aad: Seq<u8>) -> Option<Seq<u8>>;

/// Calls `hkdf::Hkdf::<Sha256>::new` and `expand` into `len` bytes, which
/// fails only above 255 blocks (8160 bytes).
#[verifier::external_body]
pub(crate) fn hkdf_expand(salt: Option<&[u8]>, ikm: &[u8], info: &[u8], len: usize) -> (res: Vec<u8>)
    requires
        len <= 8160,
    ensures
        res@ == hkdf_sha256(match salt { Some(s) => Some(s@), None => None }, ikm@, info@, len as nat),
        res@.len() == len,
{
    let mut okm = vec![0u8; len];
    let _ = hkdf::Hkdf::<sha2::Sha256>::new(salt, ikm).expand(info, &mut okm);
    okm
}

/// Calls `Hmac::<Sha256>::new_from_slice` (which takes keys of any length),
/// `update` and `finalize`.
#[verifier::external_body]
fn hmac_tag(key: &[u8], message: &[u8]) -> (res: [u8; 32])
    ensures
        res == hmac_sha256(key@, message@),
{
    let mut mac = <hmac::Hmac<sha2::Sha256> as Mac>::new_from_slice(key).expect("any key length");
    mac.update(message);
    mac.finalize().into_bytes().into()
}

/// Calls `base64::engine::general_purpose::STANDARD.decode`.
#[verifier::external_body]
pub(crate) fn base64_decode(text: &str) -> (res: Option<Vec<u8>>)
    ensures
        match base64_standard_decode(text@) {
            Some(b) => res matches Some(v) && v@ == b,
            None => res is None,
        },
{
    base64::engine::general_purpose::STANDARD.decode(text).ok()
}

/// Calls `XChaCha20Poly1305::new` and `decrypt` with the associated data.
#[verifier::external_body]
pub(crate) fn xchacha_open(key: &[u8; 32], nonce: &[u8; 24], ciphertext: &[u8], aad: &[u8]) -> (res: Option<Vec<u8>>)
    ensures
        match xchacha20poly1305_open(key@, nonce@, ciphertext@, aad@) {
            Some(b) => res matches Some(v) && v@ == b,
            None => res is None,
        },
{
    let cipher = chacha20poly1305::XChaCha20Poly1305::new(key.into());
    cipher.decrypt(chacha20poly1305::XNonce::from_slice(nonce), Payload { msg: ciphertext, aad }).ok()
}

/// The XChaCha20-Poly1305 ciphertext (with its tag) of `plaintext`.
pub uninterp spec fn xchacha20poly1305_seal(key: Seq<u8>, nonce: Seq<u8>, plaintext: Seq<u8>, aad: Seq<u8>) -> Seq<u8>;

/// Calls `XChaCha20Poly1305::new` and `encrypt` with the associated data;
/// what it returns opens, under the same key, nonce and associated data,
/// to the plaintext. The cipher refuses only a plaintext of `u32::MAX` or
/// more 64-byte blocks.
#[verifier::external_body]
pub(crate) fn xchacha_seal(key: &[u8; 32], nonce: &[u8; 24], plaintext: &[u8], aad: &[u8]) -> (res: Option<Vec<u8>>)
    ensures
        res is Some <==> plaintext@.len() / 64 < 0xFFFF_FFFF,
        res matches Some(c) ==> c@ == xchacha20poly1305_seal(key@, nonce@, plaintext@, aad@)
            && xchacha20poly1305_open(key@, nonce@, c@, aad@) == Some(plaintext@),
{
    let cipher = chacha20poly1305::XChaCha20Poly1305::new(key.into());
    cipher.encrypt(chacha20poly1305::XNonce::from_slice(nonce), Payload { msg: plaintext, aad }).ok()
}

/// Calls `base64::engine::general_purpose::STANDARD.encode`: standard
/// base64 text with padding, which depends on the bytes alone and is named
/// `base64_standard_encode`, and which decodes back to the bytes.
#[verifier::external_body]
pub(crate) fn base64_encode(bytes: &[u8]) -> (res: String)
    ensures
        res@ == base64_standard_encode(bytes@),
        base64_standard_decode(res@) == Some(bytes@),
{
    base64::engine::general_purpose::STANDARD.encode(bytes)
}

/// Calls `String::from_utf8`: the text when the bytes are valid UTF-8.
#[verifier::external_body]
pub(crate) fn utf8_text(bytes: Vec<u8>) -> (res: Option<String>)
    ensures
        res is Some <==> valid_utf8(bytes@),
        res matches Some(s) ==> s@ == decode_utf8(bytes@),
{
    String::from_utf8(bytes).ok()
}

/// The decimal digits of a natural number.
pub open spec fn spec_digits(n: nat) -> Seq<char>
    decreases n,
{
    if n < 10 {
        seq![('0' as nat + n) as char]
    } else {
        spec_digits(n / 10) + seq![('0' as nat + n % 10) as char]
    }
}

/// The decimal form of an integer, with a minus sign when negative.
pub open spec fn spec_decimal(x: int) -> Seq<char> {
    if x < 0 { seq!['-'] + spec_digits((-x) as nat) } else { spec_digits(x as nat) }
}

/// The digit character for `d`.
fn digit_text(d: u64) -> (res: &'static str)
    requires
        d < 10,
    ensures
        res@ == seq![('0' as nat + d) as char],
{
    proof {
        reveal_strlit("0");
        reveal_strlit("1");
        reveal_strlit("2");
        reveal_strlit("3");
        reveal_strlit("4");
        reveal_strlit("5");
        reveal_strlit("6");
        reveal_strlit("7");
        reveal_strlit("8");
        reveal_strlit("9");
    }
    if d == 0 {
        "0"
    } else if d == 1 {
        "1"
    } else if d == 2 {
        "2"
    } else if d == 3 {
        "3"
    } else if d == 4 {
        "4"
    } else if d == 5 {
        "5"
    } else if d == 6 {
        "6"
    } else if d == 7 {
        "7"
    } else if d == 8 {
        "8"
    } else {
        "9"
    }
}

/// The decimal digits of `n`, most significant first.
fn digits_text(n: u64) -> (res: String)
    ensures
        res@ == spec_digits(n as nat),
    decreases n,
{
    if n < 10 {
        String::from_str(digit_text(n))
    } else {
        let mut s = digits_text(n / 10);
        s.append(digit_text(n % 10));
        s
    }
}

/// The decimal form of an integer, with a minus sign when negative.
fn decimal_text(x: i64) -> (res: String)
    ensures
        res@ == spec_decimal(x as int),
{
    if x < 0 {
        let magnitude: u64 = (0i128 - (x as i128)) as u64;
        proof {
            reveal_strlit("-");
        }
        String::from_str("-").concat(digits_text(magnitude).as_str())
    } else {
        digits_text(x as u64)
    }
}

/// Why an RPC authentication step failed.
#[derive(Clone, Copy, Debug, PartialEq, Eq, Structural)]
pub enum AuthError {
    /// The project secret is not hexadecimal.
    SecretNotHex,
    /// The project secret is not 32 bytes.
    SecretWrongLength,
    /// The response is not base64.
    ResponseNotBase64,
    /// The response nonce is not hexadecimal.
    NonceNotHex,
    /// The response nonce is not 24 bytes.
    NonceWrongLength,
    /// The response does not decrypt under the key, nonce and request.
    DecryptionFailed,
    /// The plaintext is not UTF-8.
    NotUtf8,
}

/// The signing and response keys of a 32-byte project secret: the two
/// halves of 64 bytes of HKDF-SHA256 output (no salt, info "onvm-rpc-auth").
pub open spec fn spec_derive_keys(secret: Seq<u8>) -> (Seq<u8>, Seq<u8>) {
    let okm = hkdf_sha256(None, secret, RPC_AUTH_INFO@, 64);
    (okm.subrange(0, 32), okm.subrange(32, 64))
}

fn copy_32(v: &Vec<u8>, from: usize) -> (res: [u8; 32])
    requires
        from + 32 <= v@.len(),
    ensures
        res@ == v@.subrange(from as int, from + 32),
{
    let n = v.len();
    let mut out = [0u8; 32];
    let mut i: usize = 0;
    while i < 32
        invariant
            i <= 32,
            from + 32 <= v@.len(),
            n == v@.len(),
            forall|j: int| 0 <= j < i ==> out@[j] == v@[from + j],
        decreases 32 - i,
    {
        out[i] = v[from + i];
        i = i + 1;
    }
    assert(out@ =~= v@.subrange(from as int, from + 32));
    out
}

/// The signing and response keys of a project secret given in hexadecimal.
pub fn derive_keys(project_secret: &str) -> (res: Result<([u8; 32], [u8; 32]), AuthError>)
    ensures
        match spec_hex_decode(project_secret@) {
            None => res == Err::<([u8; 32], [u8; 32]), AuthError>(AuthError::SecretNotHex),
            Some(b) => if b.len() != 32 {
                res == Err::<([u8; 32], [u8; 32]), AuthError>(AuthError::SecretWrongLength)
            } else {
                res matches Ok((sk, rk)) && sk@ == spec_derive_keys(b).0 && rk@ == spec_derive_keys(b).1
            },
        },
{
    let secret = match hex_decode(project_secret) {
        Some(b) => b,
        None => return Err(AuthError::SecretNotHex),
    };
    if secret.len() != 32 {
        return Err(AuthError::SecretWrongLength);
    }
    let okm = hkdf_expand(None, secret.as_slice(), &RPC_AUTH_INFO, 64);
    let signing_key = copy_32(&okm, 0);
    let response_key = copy_32(&okm, 32);
    Ok((signing_key, response_key))
}

/// The nonce of a response to the request with `nonce` sent at `ts_ms`:
/// 24 bytes of HKDF-SHA256 with the response key as salt, the request nonce
/// as input and "resp-" and the timestamp in decimal as info.
pub open spec fn spec_response_nonce(response_key: [u8; 32], nonce: Seq<char>, ts_ms: i64) -> Seq<u8> {
    hkdf_sha256(Some(response_key@), encode_utf8(nonce), encode_utf8("resp-"@ + spec_decimal(ts_ms as int)), 24)
}

/// Derive the nonce a response to a request is encrypted under.
pub fn derive_response_nonce(response_key: &[u8; 32], nonce: &str, ts_ms: i64) -> (res: [u8; 24])
    ensures
        res@ == spec_response_nonce(*response_key, nonce@, ts_ms),
{
    let info = String::from_str("resp-").concat(decimal_text(ts_ms).as_str());
    let okm = hkdf_expand(Some(response_key.as_slice()), nonce.as_bytes(), info.as_str().as_bytes(), 24);
    let mut out = [0u8; 24];
    let mut i: usize = 0;
    while i < 24
        invariant
            i <= 24,
            okm@.len() == 24,
            forall|j: int| 0 <= j < i ==> out@[j] == okm@[j],
        decreases 24 - i,
    {
        out[i] = okm[i];
        i = i + 1;
    }
    assert(out@ =~= okm@);
    out
}

/// The canonical form of a request that is signed: method, a space, path,
/// then timestamp, nonce and body, each on a line of its own.
pub open spec fn spec_canonical(method: Seq<char>, path: Seq<char>, timestamp: i64, nonce: Seq<char>, body: Seq<char>) -> Seq<char> {
    method + " "@ + path + "\n"@ + spec_decimal(timestamp as int) + "\n"@ + nonce + "\n"@ + body
}

/// The canonical form of a request.
pub fn canonical_request(method: &str, path: &str, timestamp: i64, nonce: &str, body: &str) -> (res: String)
    ensures
        res@ == spec_canonical(method@, path@, timestamp, nonce@, body@),
{
    let ts = decimal_text(timestamp);
    let mut out = String::from_str(method);
    out.append(" ");
    out.append(path);
    out.append("\n");
    out.append(ts.as_str());
    out.append("\n");
    out.append(nonce);
    out.append("\n");
    out.append(body);
    out
}

/// The signature of a canonical request: its HMAC-SHA256 tag under the
/// signing key, in lowercase hexadecimal.
pub fn sign_canonical(signing_key: &[u8; 32], canonical: &str) -> (res: String)
    ensures
        res@ == spec_hex_encode(hmac_sha256(signing_key@, encode_utf8(canonical@))@),
{
    let tag = hmac_tag(signing_key.as_slice(), canonical.as_bytes());
    hex_encode(&tag)
}

/// The nonce a response was encrypted under: the one the server sent, in
/// hexadecimal, or else the one derived from the request.
pub open spec fn spec_response_nonce_of(
    response_key: [u8; 32],
    nonce: Seq<char>,
    timestamp: i64,
    response_nonce_hex: Option<Seq<char>>,
) -> Result<Seq<u8>, AuthError> {
    match response_nonce_hex {
        Some(h) => match spec_hex_decode(h) {
            None => Err(AuthError::NonceNotHex),
            Some(b) => if b.len() != 24 { Err(AuthError::NonceWrongLength) } else { Ok(b) },
        },
        None => Ok(spec_response_nonce(response_key, nonce, timestamp)),
    }
}

/// The text of an encrypted response to a request.
pub open spec fn spec_decrypt_response(
    ciphertext_b64: Seq<char>,
    response_key: [u8; 32],
    nonce: Seq<char>,
    timestamp: i64,
    canonical: Seq<char>,
    response_nonce_hex: Option<Seq<char>>,
) -> Result<Seq<char>, AuthError> {
    match base64_standard_decode(ciphertext_b64) {
        None => Err(AuthError::ResponseNotBase64),
        Some(ct) => match spec_response_nonce_of(response_key, nonce, timestamp, response_nonce_hex) {
            Err(e) => Err(e),
            Ok(n) => match xchacha20poly1305_open(response_key@, n, ct, encode_utf8(canonical)) {
                None => Err(AuthError::DecryptionFailed),
                Some(pt) => if valid_utf8(pt) { Ok(decode_utf8(pt)) } else { Err(AuthError::NotUtf8) },
            },
        },
    }
}

fn copy_24(v: &Vec<u8>) -> (res: [u8; 24])
    requires
        v@.len() == 24,
    ensures
        res@ == v@,
{
    let mut out = [0u8; 24];
    let mut i: usize = 0;
    while i < 24
        invariant
            i <= 24,
            v@.len() == 24,
            forall|j: int| 0 <= j < i ==> out@[j] == v@[j],
        decreases 24 - i,
    {
        out[i] = v[i];
        i = i + 1;
    }
    assert(out@ =~= v@);
    out
}

/// Decrypt a response: base64-decode it, find its nonce, open it with the
/// response key and the canonical request as associated data, and read the
/// plaintext as UTF-8.
pub fn decrypt_response(
    ciphertext_b64: &str,
    response_key: &[u8; 32],
    nonce: &str,
    timestamp: i64,
    canonical: &str,
    response_nonce_hex: Option<&str>,
) -> (res: Result<String, AuthError>)
    ensures
        match spec_decrypt_response(ciphertext_b64@, *response_key, nonce@, timestamp, canonical@,
            match response_nonce_hex { Some(h) => Some(h@), None => None }) {
            Ok(t) => res matches Ok(s) && s@ == t,
            Err(e) => res == Err::<String, AuthError>(e),
        },
{
    let ciphertext = match base64_decode(ciphertext_b64) {
        Some(c) => c,
        None => return Err(AuthError::ResponseNotBase64),
    };
    let response_nonce: [u8; 24] = match response_nonce_hex {
        Some(h) => {
            let bytes = match hex_decode(h) {
                Some(b) => b,
                None => return Err(AuthError::NonceNotHex),
            };
            if bytes.len() != 24 {
                return Err(AuthError::NonceWrongLength);
            }
            copy_24(&bytes)
        },
        None => derive_response_nonce(response_key, nonce, timestamp),
    };
    let plaintext = match xchacha_open(response_key, &response_nonce, ciphertext.as_slice(), canonical.as_bytes()) {
        Some(p) => p,
        None => return Err(AuthError::DecryptionFailed),
    };
    match utf8_text(plaintext) {
        Some(s) => Ok(s),
        None => Err(AuthError::NotUtf8),
    }
}

} // verus!
