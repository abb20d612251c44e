//! Threshold Schnorr signatures over secp256k1: the signing context, the
//! wire form of a threshold signature and its verification.

use vstd::prelude::*;
use crate::scalar::Scalar;

verus! {

/// The smallest number of signers a threshold context allows.
pub const MIN_THRESHOLD: usize = 2;

/// The x coordinate of the secp256k1 generator.
pub const GENERATOR_X: [u8; 32] = [
    0x79, 0xBE, 0x66, 0x7E, 0xF9, 0xDC, 0xBB, 0xAC, 0x55, 0xA0, 0x62, 0x95, 0xCE, 0x87,
    0x0B, 0x07, 0x02, 0x9B, 0xFC, 0xDB, 0x2D, 0xCE, 0x28, 0xD9, 0x59, 0xF2, 0x81, 0x5B,
    0x16, 0xF8, 0x17, 0x98,
];

/// Why a threshold operation failed.
#[derive(Clone, Copy, Debug, PartialEq, Eq, Structural)]
pub enum FrostError {
    /// Fewer than two signers were asked for.
    MinSignersTooSmall,
    /// More signers were asked for than there are participants.
    MinSignersExceedMax,
    /// The bytes are not the x coordinate of a curve point.
    InvalidPoint,
    /// The bytes are not a scalar below the group order.
    InvalidScalar,
    /// Adding a multiple of the generator to a point failed.
    PointMultiplyFailed,
    /// A share does not match the polynomial commitment.
    ShareMismatch,
    /// A nonce was already drawn for this signing session.
    NonceReused,
    /// No nonce was drawn for this signing session.
    MissingNonce,
    /// No Lagrange coefficient is given for this signer.
    MissingLagrangeCoefficient,
    /// There are no partial signatures to aggregate.
    NoPartialSignatures,
    /// The message is not a 32-byte digest.
    InvalidMessage,
    /// The signature does not verify.
    VerificationFailed,
}

/// Parameters of a t-of-n threshold scheme.
#[derive(Clone, Copy, Debug)]
pub struct FrostContext {
    max_participants: usize,
    min_signers: usize,
}

impl FrostContext {
    pub closed spec fn spec_min_signers(&self) -> usize {
        self.min_signers
    }

    pub closed spec fn spec_max_participants(&self) -> usize {
        self.max_participants
    }

    /// A context in which `min_signers` of `max_participants` can sign.
    pub fn new(min_signers: usize, max_participants: usize) -> (res: Result<Self, FrostError>)
        ensures
            min_signers < MIN_THRESHOLD ==> res == Err::<Self, FrostError>(FrostError::MinSignersTooSmall),
            MIN_THRESHOLD <= min_signers && min_signers > max_participants
                ==> res == Err::<Self, FrostError>(FrostError::MinSignersExceedMax),
            MIN_THRESHOLD <= min_signers <= max_participants ==> (res matches Ok(ctx)
                && ctx.spec_min_signers() == min_signers && ctx.spec_max_participants() == max_participants),
    {
        if min_signers < MIN_THRESHOLD {
            return Err(FrostError::MinSignersTooSmall);
        }
        if min_signers > max_participants {
            return Err(FrostError::MinSignersExceedMax);
        }
        Ok(FrostContext { max_participants, min_signers })
    }

    /// The number of signers a signature needs.
    pub fn min_signers(&self) -> (res: usize)
        ensures
            res == self.spec_min_signers(),
    {
        self.min_signers
    }

    /// The number of participants that hold shares.
    pub fn max_participants(&self) -> (res: usize)
        ensures
            res == self.spec_max_participants(),
    {
        self.max_participants
    }
}

/// Whether the bytes are the x coordinate of a point on secp256k1.
pub uninterp spec fn secp_xonly_valid(x: Seq<u8>) -> bool;

/// Whether the 64-byte BIP-340 signature verifies the 32-byte digest under
/// the x-only public key.
pub uninterp spec fn secp_schnorr_verifies(signature: Seq<u8>, digest: Seq<u8>, public_key: Seq<u8>) -> bool;

/// Parses the bytes with `secp256k1::XOnlyPublicKey::from_slice`: true when
/// they are the x coordinate of a curve point.
#[verifier::external_body]
pub(crate) fn xonly_valid(x: &[u8; 32]) -> (res: bool)
    ensures
        res == secp_xonly_valid(x@),
{
    secp256k1::XOnlyPublicKey::from_slice(x).is_ok()
}

/// Parses the signature and key and calls `secp256k1::Secp256k1::verify_schnorr`
/// on the digest: true when it returns `Ok`.
#[verifier::external_body]
pub(crate) fn schnorr_verify(signature: &[u8; 64], digest: &[u8; 32], public_key: &[u8; 32]) -> (res: bool)
    ensures
        res == (secp_xonly_valid(public_key@) && secp_schnorr_verifies(signature@, digest@, public_key@)),
{
    let secp = secp256k1::Secp256k1::verification_only();
    let (Ok(sig), Ok(pk)) = (
        secp256k1::schnorr::Signature::from_slice(signature),
        secp256k1::XOnlyPublicKey::from_slice(public_key),
    ) else {
        return false;
    };
    secp.verify_schnorr(&sig, &secp256k1::Message::from_digest(*digest), &pk).is_ok()
}

/// The x coordinate of the x-only point `x` plus `tweak` (32 little-endian
/// bytes) times the generator, when both parse and the sum is a point.
pub uninterp spec fn secp_xonly_tweak_add(x: Seq<u8>, tweak: Seq<u8>) -> Option<Seq<u8>>;

/// Parses the point with `XOnlyPublicKey::from_slice` and the tweak with
/// `secp256k1::Scalar::from_le_bytes`, then calls `add_tweak` and keeps the
/// x coordinate of the result; `None` where any step fails, in particular
/// when the bytes are not a point.
#[verifier::external_body]
fn xonly_add_tweak(x: &[u8; 32], tweak: &[u8; 32]) -> (res: Option<[u8; 32]>)
    ensures
        res is None <==> secp_xonly_tweak_add(x@, tweak@) is None,
        res matches Some(r) ==> secp_xonly_tweak_add(x@, tweak@) == Some(r@),
        !secp_xonly_valid(x@) ==> res is None,
{
    let pk = secp256k1::XOnlyPublicKey::from_slice(x).ok()?;
    let t = secp256k1::Scalar::from_le_bytes(*tweak).ok()?;
    let secp = secp256k1::Secp256k1::verification_only();
    pk.add_tweak(&secp, &t).ok().map(|(k, _)| k.serialize())
}

/// A curve point, held as its x coordinate.
#[derive(Clone, Copy, Debug, PartialEq, Eq)]
pub struct Point {
    x: [u8; 32],
}

impl Point {
    pub closed spec fn spec_bytes(&self) -> [u8; 32] {
        self.x
    }

    /// The point with x coordinate `bytes`, if there is one.
    pub fn from_bytes(bytes: &[u8; 32]) -> (res: Result<Point, FrostError>)
        ensures
            secp_xonly_valid(bytes@) ==> (res matches Ok(p) && p.spec_bytes() == *bytes),
            !secp_xonly_valid(bytes@) ==> res == Err::<Point, FrostError>(FrostError::InvalidPoint),
    {
        if xonly_valid(bytes) {
            Ok(Point { x: *bytes })
        } else {
            Err(FrostError::InvalidPoint)
        }
    }

    /// The generator of the curve.
    pub fn generator() -> (res: Point)
        ensures
            res.spec_bytes() == GENERATOR_X,
    {
        Point { x: GENERATOR_X }
    }

    /// The x coordinate.
    pub fn as_bytes(&self) -> (res: [u8; 32])
        ensures
            res == self.spec_bytes(),
    {
        self.x
    }

    /// The point plus `scalar` times the generator, as the scheme's point
    /// "multiplication" computes it.
    pub fn multiply(&self, scalar: &Scalar) -> (res: Result<Point, FrostError>)
        ensures
            match secp_xonly_tweak_add(self.spec_bytes()@, scalar.spec_bytes()@) {
                Some(x) => res matches Ok(p) && p.spec_bytes()@ == x,
                None => res == Err::<Point, FrostError>(FrostError::PointMultiplyFailed),
            },
    {
        match xonly_add_tweak(&self.x, &scalar.as_bytes()) {
            Some(x) => Ok(Point { x }),
            None => Err(FrostError::PointMultiplyFailed),
        }
    }

    /// "Addition" as the scheme defines it on x-only points: the left operand.
    pub fn add(&self, other: &Point) -> (res: Point)
        ensures
            res == *self,
    {
        *self
    }

    /// 1 when the top bit of the first byte of the x coordinate is set, else 0.
    pub fn parity(&self) -> (res: u8)
        ensures
            res == (if self.spec_bytes()[0] & 0x80u8 == 0u8 { 0u8 } else { 1u8 }),
    {
        if self.x[0] & 0x80 == 0 {
            0
        } else {
            1
        }
    }
}

/// A threshold signature: the nonce point, the response scalar (32
/// little-endian bytes), and who signed.
#[derive(Clone, Debug, PartialEq, Eq)]
pub struct ThresholdSignature {
    pub r_point: Point,
    pub s_value: Scalar,
    pub signers: Vec<u32>,
    pub threshold: u32,
}

/// The four little-endian bytes of `x`.
pub open spec fn spec_le_u32(x: u32) -> Seq<u8> {
    seq![x as u8, (x >> 8u32) as u8, (x >> 16u32) as u8, (x >> 24u32) as u8]
}

/// The little-endian bytes of each number, one after the other.
pub open spec fn spec_le_u32s(xs: Seq<u32>) -> Seq<u8>
    decreases xs.len(),
{
    if xs.len() == 0 {
        Seq::empty()
    } else {
        spec_le_u32s(xs.drop_last()) + spec_le_u32(xs.last())
    }
}

fn push_le_u32(buf: &mut Vec<u8>, x: u32)
    ensures
        final(buf)@ == old(buf)@ + spec_le_u32(x),
{
    buf.push(x as u8);
    buf.push((x >> 8u32) as u8);
    buf.push((x >> 16u32) as u8);
    buf.push((x >> 24u32) as u8);
    assert(final(buf)@ =~= old(buf)@ + spec_le_u32(x));
}

fn push_all(buf: &mut Vec<u8>, bytes: &[u8; 32])
    ensures
        final(buf)@ == old(buf)@ + bytes@,
{
    let mut i: usize = 0;
    while i < 32
        invariant
            i <= 32,
            buf@ == old(buf)@ + bytes@.take(i as int),
        decreases 32 - i,
    {
        buf.push(bytes[i]);
        assert(bytes@.take(i + 1) =~= bytes@.take(i as int).push(bytes@[i as int]));
        assert(buf@ =~= old(buf)@ + bytes@.take(i + 1));
        i = i + 1;
    }
    assert(bytes@.take(32) =~= bytes@);
}

impl ThresholdSignature {
    /// The 64-byte Schnorr signature: the nonce point, then the response.
    pub open spec fn spec_schnorr_bytes(&self) -> Seq<u8> {
        self.r_point.spec_bytes()@ + self.s_value.spec_bytes()@
    }

    /// The wire form: nonce point, response, number of signers (four
    /// little-endian bytes, modulo 2^32) and each signer's index (four
    /// little-endian bytes each).
    pub fn to_bytes(&self) -> (res: Vec<u8>)
        ensures
            res@ == self.spec_schnorr_bytes() + spec_le_u32(self.signers@.len() as u32)
                + spec_le_u32s(self.signers@),
    {
        let mut result: Vec<u8> = Vec::with_capacity(97);
        let r = self.r_point.as_bytes();
        push_all(&mut result, &r);
        let sv = self.s_value.as_bytes();
        push_all(&mut result, &sv);
        push_le_u32(&mut result, self.signers.len() as u32);
        let ghost head = result@;
        let mut i: usize = 0;
        while i < self.signers.len()
            invariant
                i <= self.signers@.len(),
                result@ == head + spec_le_u32s(self.signers@.take(i as int)),
            decreases self.signers@.len() - i,
        {
            push_le_u32(&mut result, self.signers[i]);
            assert(self.signers@.take(i + 1).drop_last() =~= self.signers@.take(i as int));
            assert(result@ =~= head + spec_le_u32s(self.signers@.take(i + 1)));
            i = i + 1;
        }
        assert(self.signers@.take(self.signers@.len() as int) =~= self.signers@);
        result
    }

    /// Check the signature on a 32-byte digest under an x-only public key.
    pub fn verify(&self, msg: &[u8], public_key: &Point) -> (res: Result<(), FrostError>)
        ensures
            !secp_xonly_valid(public_key.spec_bytes()@) ==> res == Err::<(), FrostError>(FrostError::InvalidPoint),
            secp_xonly_valid(public_key.spec_bytes()@) && msg@.len() != 32
                ==> res == Err::<(), FrostError>(FrostError::InvalidMessage),
            secp_xonly_valid(public_key.spec_bytes()@) && msg@.len() == 32 ==> (
                if secp_schnorr_verifies(self.spec_schnorr_bytes(), msg@, public_key.spec_bytes()@) {
                    res == Ok::<(), FrostError>(())
                } else {
                    res == Err::<(), FrostError>(FrostError::VerificationFailed)
                }),
    {
        let mut sig_bytes = [0u8; 64];
        let r = self.r_point.as_bytes();
        let sv = self.s_value.as_bytes();
        let mut i: usize = 0;
        while i < 64
            invariant
                i <= 64,
                r == self.r_point.spec_bytes(),
                sv == self.s_value.spec_bytes(),
                forall|j: int| 0 <= j < i ==> sig_bytes@[j] == (r@ + sv@)[j],
            decreases 64 - i,
        {
            if i < 32 {
                sig_bytes[i] = r[i];
            } else {
                sig_bytes[i] = sv[i - 32];
            }
            i = i + 1;
        }
        assert(sig_bytes@ =~= self.spec_schnorr_bytes());
        let pk = public_key.as_bytes();
        if !xonly_valid(&pk) {
            return Err(FrostError::InvalidPoint);
        }
        if msg.len() != 32 {
            return Err(FrostError::InvalidMessage);
        }
        let mut digest = [0u8; 32];
        let mut k: usize = 0;
        while k < 32
            invariant
                k <= 32,
                msg@.len() == 32,
                forall|j: int| 0 <= j < k ==> digest@[j] == msg@[j],
            decreases 32 - k,
        {
            digest[k] = msg[k];
            k = k + 1;
        }
        assert(digest@ =~= msg@);
        if schnorr_verify(&sig_bytes, &digest, &pk) {
            Ok(())
        } else {
            Err(FrostError::VerificationFailed)
        }
    }
}

/// The transcript of a distributed key generation.
#[derive(Clone, Debug, PartialEq, Eq)]
pub struct DkgTranscript(pub Vec<u8>);

/// A threshold public key as bytes.
#[derive(Clone, Debug, PartialEq, Eq)]
pub struct ThresholdPublicKey {
    pub key: Vec<u8>,
}

impl ThresholdPublicKey {
    /// The key whose bytes are the point's x coordinate.
    pub fn from_point(point: &Point) -> (res: Self)
        ensures
            res.key@ == point.spec_bytes()@,
    {
        let mut key: Vec<u8> = Vec::new();
        let bytes = point.as_bytes();
        push_all(&mut key, &bytes);
        ThresholdPublicKey { key }
    }
}

/// Verifies threshold signatures.
pub struct ThresholdSigner;

impl ThresholdSigner {
    /// Check a threshold signature on a digest under a 33-byte public key,
    /// whose last 32 bytes are the x coordinate.
    pub fn verify_threshold_signature(
        signature: &ThresholdSignature,
        public_key: &ThresholdPublicKey,
        message_hash: &[u8; 32],
    ) -> (res: Result<(), FrostError>)
        requires
            public_key.key@.len() == 33,
        ensures
            ({
                let x = public_key.key@.subrange(1, 33);
                if !secp_xonly_valid(x) {
                    res == Err::<(), FrostError>(FrostError::InvalidPoint)
                } else if secp_schnorr_verifies(signature.spec_schnorr_bytes(), message_hash@, x) {
                    res == Ok::<(), FrostError>(())
                } else {
                    res == Err::<(), FrostError>(FrostError::VerificationFailed)
                }
            }),
    {
        let mut key_arr = [0u8; 32];
        let mut i: usize = 0;
        while i < 32
            invariant
                i <= 32,
                public_key.key@.len() == 33,
                forall|j: int| 0 <= j < i ==> key_arr@[j] == public_key.key@[j + 1],
            decreases 32 - i,
        {
            key_arr[i] = public_key.key[i + 1];
            i = i + 1;
        }
        assert(key_arr@ =~= public_key.key@.subrange(1, 33));
        let pk_point = match Point::from_bytes(&key_arr) {
            Ok(p) => p,
            Err(e) => return Err(e),
        };
        signature.verify(message_hash, &pk_point)
    }
}

} // verus!
