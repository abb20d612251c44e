//! BLS signatures (min-sig variant of BLS12-381) over execution receipts.

use vstd::prelude::*;
use crate::hashing::random_bytes32;

verus! {

/// Domain separation tag of receipt signatures: the bytes of "ONVM:RECEIPT:V1".
pub const DST_RECEIPT: [u8; 15] = [79, 78, 86, 77, 58, 82, 69, 67, 69, 73, 80, 84, 58, 86, 49];
/// Domain separation tag of committee signatures: the bytes of "ONVM:COMMITTEE:V1".
pub const DST_COMMITTEE: [u8; 17] = [79, 78, 86, 77, 58, 67, 79, 77, 77, 73, 84, 84, 69, 69, 58, 86, 49];

#[derive(Clone, Copy, Debug, PartialEq, Eq, Hash)]
pub struct BlsPublicKey(pub [u8; 96]);

#[derive(Clone, Copy, Debug, PartialEq, Eq, Hash)]
pub struct BlsSignature(pub [u8; 48]);

#[derive(Clone, Copy, Debug, PartialEq, Eq, Hash)]
pub struct BlsSecretKey(pub [u8; 32]);

/// Why a BLS operation failed.
#[derive(Clone, Copy, Debug, PartialEq, Eq, Structural)]
pub enum BlsError {
    /// The bytes are not a valid secret key.
    InvalidSecretKey,
    /// A key or the signature did not parse, or the signature does not verify.
    VerificationFailed,
    /// Aggregate verification was asked of no public keys.
    MissingPublicKeys,
    /// There were no signatures to aggregate.
    NoSignatures,
    /// There were no public keys to aggregate.
    NoPublicKeys,
    /// A signature or key did not parse or failed subgroup validation.
    AggregationFailed,
}

/// The signature of `message` under domain `dst` by the secret key with
/// these bytes, when the bytes are a valid key.
pub uninterp spec fn bls_sign(secret: Seq<u8>, message: Seq<u8>, dst: Seq<u8>) -> Option<[u8; 48]>;

/// The public key of the secret key with these bytes, when they are a valid key.
pub uninterp spec fn bls_public_from_secret(secret: Seq<u8>) -> Option<[u8; 96]>;

/// Whether `signature` parses and verifies `message` under `public` and domain `dst`.
pub uninterp spec fn bls_verifies(message: Seq<u8>, public: Seq<u8>, signature: Seq<u8>, dst: Seq<u8>) -> bool;

/// Whether `signature` parses and verifies `message` under the aggregate of `publics`.
pub uninterp spec fn bls_fast_aggregate_verifies(
    message: Seq<u8>,
    publics: Seq<[u8; 96]>,
    signature: Seq<u8>,
    dst: Seq<u8>,
) -> bool;

/// The aggregate of the signatures, when all parse and validate.
pub uninterp spec fn bls_aggregate_signatures(signatures: Seq<[u8; 48]>) -> Option<[u8; 48]>;

/// The aggregate of the public keys, when all parse and validate.
pub uninterp spec fn bls_aggregate_public_keys(publics: Seq<[u8; 96]>) -> Option<[u8; 96]>;

pub open spec fn public_key_bytes(keys: Seq<BlsPublicKey>) -> Seq<[u8; 96]> {
    keys.map_values(|k: BlsPublicKey| k.0)
}

pub open spec fn signature_bytes(sigs: Seq<BlsSignature>) -> Seq<[u8; 48]> {
    sigs.map_values(|s: BlsSignature| s.0)
}

/// Calls `blst::min_sig::SecretKey::from_bytes` and, on success, `sign` with no
/// augmentation: the result is a function of the key bytes, message and domain.
#[verifier::external_body]
fn blst_sign(message: &[u8], secret: &[u8; 32], dst: &[u8]) -> (res: Option<[u8; 48]>)
    ensures
        res == bls_sign(secret@, message@, dst@),
{
    match blst::min_sig::SecretKey::from_bytes(secret) {
        Ok(sk) => Some(sk.sign(message, dst, &[]).to_bytes()),
        Err(_) => None,
    }
}

/// Calls `blst::min_sig::SecretKey::from_bytes` and, on success, `sk_to_pk`.
#[verifier::external_body]
fn blst_sk_to_pk(secret: &[u8; 32]) -> (res: Option<[u8; 96]>)
    ensures
        res == bls_public_from_secret(secret@),
{
    match blst::min_sig::SecretKey::from_bytes(secret) {
        Ok(sk) => Some(sk.sk_to_pk().to_bytes()),
        Err(_) => None,
    }
}

/// Parses the key and signature and calls `blst::min_sig::Signature::verify`
/// with group checks on both; true exactly on `BLST_SUCCESS`.
#[verifier::external_body]
fn blst_verify(message: &[u8], public: &[u8; 96], signature: &[u8; 48], dst: &[u8]) -> (res: bool)
    ensures
        res == bls_verifies(message@, public@, signature@, dst@),
{
    let (Ok(pk), Ok(sig)) = (blst::min_sig::PublicKey::from_bytes(public), blst::min_sig::Signature::from_bytes(signature)) else {
        return false;
    };
    sig.verify(true, message, dst, &[], &pk, true) == blst::BLST_ERROR::BLST_SUCCESS
}

/// Parses the keys and signature and calls
/// `blst::min_sig::Signature::fast_aggregate_verify` with a group check on the
/// signature; true exactly on `BLST_SUCCESS`.
#[verifier::external_body]
fn blst_fast_aggregate_verify(message: &[u8], publics: &[BlsPublicKey], signature: &[u8; 48], dst: &[u8]) -> (res: bool)
    ensures
        res == bls_fast_aggregate_verifies(message@, public_key_bytes(publics@), signature@, dst@),
{
    let Ok(sig) = blst::min_sig::Signature::from_bytes(signature) else {
        return false;
    };
    let Ok(pks) = publics.iter().map(|k| blst::min_sig::PublicKey::from_bytes(&k.0)).collect::<Result<Vec<_>, _>>() else {
        return false;
    };
    let refs: Vec<&blst::min_sig::PublicKey> = pks.iter().collect();
    sig.fast_aggregate_verify(true, message, dst, &refs) == blst::BLST_ERROR::BLST_SUCCESS
}

/// Parses the signatures and calls `blst::min_sig::AggregateSignature::aggregate`
/// with validation.
#[verifier::external_body]
fn blst_aggregate_signatures(signatures: &[BlsSignature]) -> (res: Option<[u8; 48]>)
    ensures
        res == bls_aggregate_signatures(signature_bytes(signatures@)),
{
    let Ok(sigs) = signatures.iter().map(|s| blst::min_sig::Signature::from_bytes(&s.0)).collect::<Result<Vec<_>, _>>() else {
        return None;
    };
    let refs: Vec<&blst::min_sig::Signature> = sigs.iter().collect();
    blst::min_sig::AggregateSignature::aggregate(&refs, true).ok().map(|a| a.to_signature().to_bytes())
}

/// Parses the keys and calls `blst::min_sig::AggregatePublicKey::aggregate`
/// with validation.
#[verifier::external_body]
fn blst_aggregate_public_keys(publics: &[BlsPublicKey]) -> (res: Option<[u8; 96]>)
    ensures
        res == bls_aggregate_public_keys(public_key_bytes(publics@)),
{
    let Ok(pks) = publics.iter().map(|k| blst::min_sig::PublicKey::from_bytes(&k.0)).collect::<Result<Vec<_>, _>>() else {
        return None;
    };
    let refs: Vec<&blst::min_sig::PublicKey> = pks.iter().collect();
    blst::min_sig::AggregatePublicKey::aggregate(&refs, true).ok().map(|a| a.to_public_key().to_bytes())
}

/// Calls `blst::min_sig::SecretKey::key_gen` on the key material `ikm`,
/// which refuses only key material shorter than 32 bytes, so it succeeds
/// here; the public key returned with the secret is the one `sk_to_pk`
/// gives for it.
#[verifier::external_body]
fn blst_key_gen(ikm: &[u8; 32]) -> (res: Option<([u8; 32], [u8; 96])>)
    ensures
        res is Some,
        res matches Some((sk, pk)) ==> bls_public_from_secret(sk@) == Some(pk),
{
    let sk = blst::min_sig::SecretKey::key_gen(ikm, &[]).ok()?;
    Some((sk.to_bytes(), sk.sk_to_pk().to_bytes()))
}

/// A fresh random key pair; key generation from 32 random bytes always
/// succeeds.
pub fn generate_keypair() -> (res: Result<(BlsSecretKey, BlsPublicKey), BlsError>)
    ensures
        res is Ok,
        res matches Ok((sk, pk)) ==> bls_public_from_secret(sk.0@) == Some(pk.0),
{
    let ikm = random_bytes32();
    match blst_key_gen(&ikm) {
        Some((sk, pk)) => Ok((BlsSecretKey(sk), BlsPublicKey(pk))),
        None => Err(BlsError::InvalidSecretKey),
    }
}

/// The public key of a secret key.
pub fn public_from_secret(secret: &BlsSecretKey) -> (res: Result<BlsPublicKey, BlsError>)
    ensures
        match bls_public_from_secret(secret.0@) {
            Some(pk) => res == Ok::<BlsPublicKey, BlsError>(BlsPublicKey(pk)),
            None => res == Err::<BlsPublicKey, BlsError>(BlsError::InvalidSecretKey),
        },
{
    match blst_sk_to_pk(&secret.0) {
        Some(pk) => Ok(BlsPublicKey(pk)),
        None => Err(BlsError::InvalidSecretKey),
    }
}

/// Sign `message` under domain `dst`.
pub fn sign(message: &[u8], secret: &BlsSecretKey, dst: &[u8]) -> (res: Result<BlsSignature, BlsError>)
    ensures
        match bls_sign(secret.0@, message@, dst@) {
            Some(sig) => res == Ok::<BlsSignature, BlsError>(BlsSignature(sig)),
            None => res == Err::<BlsSignature, BlsError>(BlsError::InvalidSecretKey),
        },
{
    match blst_sign(message, &secret.0, dst) {
        Some(sig) => Ok(BlsSignature(sig)),
        None => Err(BlsError::InvalidSecretKey),
    }
}

/// Check a signature on `message` under `public` and domain `dst`.
pub fn verify(message: &[u8], public: &BlsPublicKey, signature: &BlsSignature, dst: &[u8]) -> (res: Result<(), BlsError>)
    ensures
        res is Ok <==> bls_verifies(message@, public.0@, signature.0@, dst@),
        res is Err ==> res == Err::<(), BlsError>(BlsError::VerificationFailed),
{
    if blst_verify(message, &public.0, &signature.0, dst) {
        Ok(())
    } else {
        Err(BlsError::VerificationFailed)
    }
}

/// Check an aggregate signature on `message` by all of `public_keys`.
pub fn fast_aggregate_verify(
    message: &[u8],
    public_keys: &[BlsPublicKey],
    signature: &BlsSignature,
    dst: &[u8],
) -> (res: Result<(), BlsError>)
    ensures
        public_keys@.len() == 0 ==> res == Err::<(), BlsError>(BlsError::MissingPublicKeys),
        public_keys@.len() > 0 ==> (res is Ok <==> bls_fast_aggregate_verifies(
            message@,
            public_key_bytes(public_keys@),
            signature.0@,
            dst@,
        )),
        public_keys@.len() > 0 && res is Err ==> res == Err::<(), BlsError>(BlsError::VerificationFailed),
{
    if public_keys.len() == 0 {
        return Err(BlsError::MissingPublicKeys);
    }
    if blst_fast_aggregate_verify(message, public_keys, &signature.0, dst) {
        Ok(())
    } else {
        Err(BlsError::VerificationFailed)
    }
}

/// Aggregate signatures into one.
pub fn aggregate_signatures(signatures: &[BlsSignature]) -> (res: Result<BlsSignature, BlsError>)
    ensures
        signatures@.len() == 0 ==> res == Err::<BlsSignature, BlsError>(BlsError::NoSignatures),
        signatures@.len() > 0 ==> match bls_aggregate_signatures(signature_bytes(signatures@)) {
            Some(sig) => res == Ok::<BlsSignature, BlsError>(BlsSignature(sig)),
            None => res == Err::<BlsSignature, BlsError>(BlsError::AggregationFailed),
        },
{
    if signatures.len() == 0 {
        return Err(BlsError::NoSignatures);
    }
    match blst_aggregate_signatures(signatures) {
        Some(sig) => Ok(BlsSignature(sig)),
        None => Err(BlsError::AggregationFailed),
    }
}

/// Aggregate public keys into one.
pub fn aggregate_public_keys(keys: &[BlsPublicKey]) -> (res: Result<BlsPublicKey, BlsError>)
    ensures
        keys@.len() == 0 ==> res == Err::<BlsPublicKey, BlsError>(BlsError::NoPublicKeys),
        keys@.len() > 0 ==> match bls_aggregate_public_keys(public_key_bytes(keys@)) {
            Some(pk) => res == Ok::<BlsPublicKey, BlsError>(BlsPublicKey(pk)),
            None => res == Err::<BlsPublicKey, BlsError>(BlsError::AggregationFailed),
        },
{
    if keys.len() == 0 {
        return Err(BlsError::NoPublicKeys);
    }
    match blst_aggregate_public_keys(keys) {
        Some(pk) => Ok(BlsPublicKey(pk)),
        None => Err(BlsError::AggregationFailed),
    }
}

} // verus!
