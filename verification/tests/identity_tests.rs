use base64::Engine;
use onvm::bls::generate_keypair;
use onvm::bls_identity::{
    derive_bls_storage_key, load_bls_identity, open_bls_identity, seal_bls_identity, store_bls_identity,
    BlsIdentityError,
};
use onvm::types::NodeId;

#[test]
fn storage_key_is_hkdf_of_the_ed25519_secret() {
    let ed = [3u8; 32];
    let mut expected = [0u8; 32];
    hkdf::Hkdf::<sha2::Sha256>::new(None, &ed).expand(b"onvm-bls-identity", &mut expected).unwrap();
    assert_eq!(derive_bls_storage_key(&ed), expected);
}

#[test]
fn stored_identity_loads_back() {
    let (secret, public) = generate_keypair().unwrap();
    let ed = [3u8; 32];
    let node = NodeId([4u8; 32]);
    let text = store_bls_identity(&secret, &ed, &node).unwrap();
    let (s, p) = load_bls_identity(&text, &ed, &node).unwrap();
    assert_eq!(s, secret);
    assert_eq!(p, public);
    assert_eq!(load_bls_identity(&text, &ed, &NodeId([5u8; 32])), Err(BlsIdentityError::DecryptFailed));
    assert_eq!(load_bls_identity(&text, &[9u8; 32], &node), Err(BlsIdentityError::DecryptFailed));
}

#[test]
fn sealed_layout_is_header_nonce_ciphertext() {
    let (secret, _) = generate_keypair().unwrap();
    let key = [1u8; 32];
    let node = NodeId([2u8; 32]);
    let nonce = [7u8; 24];
    let text = seal_bls_identity(&secret, &key, &node, &nonce).unwrap();
    let raw = base64::engine::general_purpose::STANDARD.decode(&text).unwrap();
    assert_eq!(&raw[..8], b"ONVMBLS1");
    assert_eq!(&raw[8..32], &nonce);
    assert_eq!(raw.len(), 32 + 32 + 16);
    assert!(open_bls_identity(&text, &key, &node).is_ok());
}

#[test]
fn malformed_identities_are_refused() {
    let key = [1u8; 32];
    let node = NodeId([2u8; 32]);
    assert_eq!(open_bls_identity("not base64!", &key, &node), Err(BlsIdentityError::BadEncoding));
    let short = base64::engine::general_purpose::STANDARD.encode(b"ONVMBLS1short");
    assert_eq!(open_bls_identity(&short, &key, &node), Err(BlsIdentityError::TooShort));
    let wrong = base64::engine::general_purpose::STANDARD.encode([0u8; 64]);
    assert_eq!(open_bls_identity(&wrong, &key, &node), Err(BlsIdentityError::BadHeader));
}

use onvm::keys::{
    generate_identity, read_identity, seal_identity, sign_network_message, verify_signed_message, write_identity,
    IdentityError, MessageAuthError, NodeKeys, ENC_HEADER,
};

#[test]
fn encrypted_identity_roundtrip() {
    let pass = "test-passphrase";
    let (keys, file) = generate_identity(Some(pass)).unwrap();
    let loaded = read_identity(&file, Some(pass), false).unwrap();
    assert_eq!(keys.node_id, loaded.node_id);

    let decoded = base64::engine::general_purpose::STANDARD.decode(&file).unwrap();
    assert_eq!(&decoded[..ENC_HEADER.len()], &ENC_HEADER);
}

#[test]
fn plaintext_disallowed_without_override() {
    let secret = [0x42u8; 32];
    let file = hex::encode(secret).into_bytes();
    let res = read_identity(&file, None, false);
    assert!(res.is_err());
    assert_eq!(res, Err(IdentityError::PlaintextDisallowed));
}

#[test]
fn plaintext_identity_is_read_when_allowed() {
    let keys = NodeKeys::from_secret([7u8; 32]);
    let file = write_identity(&keys, None).unwrap();
    assert_eq!(file, hex::encode([7u8; 32]).into_bytes());
    let mut padded = b"  ".to_vec();
    padded.extend_from_slice(&file);
    padded.extend_from_slice(b"\n");
    let loaded = read_identity(&padded, None, true).unwrap();
    assert_eq!(loaded, keys);
    let expected_public =
        ed25519_dalek::SigningKey::from_bytes(&[7u8; 32]).verifying_key().to_bytes();
    assert_eq!(keys.public, expected_public);
    assert_eq!(keys.node_id, NodeId(expected_public));
    assert_eq!(read_identity(b"zz", None, true), Err(IdentityError::BadHex));
    assert_eq!(read_identity(b"abcd", None, true), Err(IdentityError::BadSecret));
    assert_eq!(read_identity(&[0xff, 0xfe], None, true), Err(IdentityError::NotUtf8));
}

#[test]
fn sealed_identity_needs_its_passphrase() {
    let secret = [9u8; 32];
    let file = seal_identity(&secret, "right", &[1u8; 16], &[2u8; 12]).unwrap();
    assert_eq!(read_identity(&file, Some("right"), false).unwrap().secret, secret);
    assert_eq!(read_identity(&file, Some("wrong"), false), Err(IdentityError::DecryptFailed));
    assert_eq!(read_identity(&file, None, true), Err(IdentityError::PassphraseRequired));
}

#[test]
fn sign_verify_roundtrip() {
    let nk = NodeKeys::generate();
    let payload = vec![1u8; 32];
    let signed = sign_network_message(&nk, payload.clone());
    assert_eq!(signed.payload, payload);
    assert_eq!(signed.publisher, nk.node_id);
    assert_eq!(verify_signed_message(&signed), Ok(()));
}

#[test]
fn detect_tampered_signature() {
    let nk = NodeKeys::generate();
    let mut signed = sign_network_message(&nk, vec![2u8; 32]);
    signed.payload[0] ^= 0xFF;
    assert!(verify_signed_message(&signed).is_err());
    assert_eq!(verify_signed_message(&signed), Err(MessageAuthError::InvalidSignature));
}

#[test]
fn signed_message_publisher_must_match_key() {
    let nk = NodeKeys::generate();
    let mut signed = sign_network_message(&nk, vec![3u8; 8]);
    signed.publisher = NodeId([0u8; 32]);
    assert_eq!(verify_signed_message(&signed), Err(MessageAuthError::PublisherMismatch));
    let mut short = sign_network_message(&nk, vec![3u8; 8]);
    short.signature.truncate(10);
    assert_eq!(verify_signed_message(&short), Err(MessageAuthError::BadSignature));
}
