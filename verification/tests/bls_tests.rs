use onvm::bls::{
    aggregate_public_keys, aggregate_signatures, fast_aggregate_verify, generate_keypair, public_from_secret, sign,
    verify, BlsError, DST_COMMITTEE, DST_RECEIPT,
};

#[test]
fn sign_and_verify_roundtrip() -> Result<(), BlsError> {
    let (sk, pk) = generate_keypair()?;
    let msg = b"hello-receipt";
    let sig = sign(msg, &sk, &DST_RECEIPT)?;
    verify(msg, &pk, &sig, &DST_RECEIPT)
}

#[test]
fn aggregate_verify_roundtrip() -> Result<(), BlsError> {
    let (sk1, pk1) = generate_keypair()?;
    let (sk2, pk2) = generate_keypair()?;
    let msg = b"aggregate-receipt";
    let sig1 = sign(msg, &sk1, &DST_RECEIPT)?;
    let sig2 = sign(msg, &sk2, &DST_RECEIPT)?;
    let agg_sig = aggregate_signatures(&[sig1, sig2])?;
    fast_aggregate_verify(msg, &[pk1, pk2], &agg_sig, &DST_RECEIPT)
}

#[test]
fn domain_tags_spell_their_names() {
    assert_eq!(&DST_RECEIPT, b"ONVM:RECEIPT:V1");
    assert_eq!(&DST_COMMITTEE, b"ONVM:COMMITTEE:V1");
}

#[test]
fn signature_does_not_verify_another_message() {
    let (sk, pk) = generate_keypair().unwrap();
    let sig = sign(b"one", &sk, &DST_RECEIPT).unwrap();
    assert_eq!(verify(b"two", &pk, &sig, &DST_RECEIPT), Err(BlsError::VerificationFailed));
    assert_eq!(verify(b"one", &pk, &sig, &DST_COMMITTEE), Err(BlsError::VerificationFailed));
}

#[test]
fn public_key_follows_from_secret() {
    let (sk, pk) = generate_keypair().unwrap();
    assert_eq!(public_from_secret(&sk).unwrap(), pk);
}

#[test]
fn aggregation_needs_inputs() {
    assert_eq!(aggregate_signatures(&[]), Err(BlsError::NoSignatures));
    assert_eq!(aggregate_public_keys(&[]), Err(BlsError::NoPublicKeys));
    let (_, pk) = generate_keypair().unwrap();
    let sig = onvm::bls::BlsSignature([0u8; 48]);
    assert_eq!(fast_aggregate_verify(b"m", &[], &sig, &DST_RECEIPT), Err(BlsError::MissingPublicKeys));
    assert_eq!(aggregate_public_keys(&[pk]).unwrap(), pk);
}
