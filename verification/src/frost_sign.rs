//! Signing with a threshold key: nonces, the challenge, partial
//! signatures, Lagrange coefficients, aggregation and batch verification.

use vstd::prelude::*;
use crate::frost::{
    schnorr_verify, secp_schnorr_verifies, secp_xonly_tweak_add, secp_xonly_valid, xonly_valid, FrostContext,
    FrostError, Point, ThresholdSignature, GENERATOR_X,
};
use crate::hashing::{blake3_hash, hash_bytes};
use crate::scalar::{spec_curve_order, spec_le_value, spec_scalar_add, spec_scalar_bytes, spec_scalar_inv, spec_scalar_mul, Scalar};
use crate::vss::{spec_one_bytes, spec_u64_bytes, spec_zero_bytes, KeyShare};

verus! {

/// The domain tag of the scheme's challenge hash.
pub const FROST_DOMAIN: [u8; 23] = [
    70, 82, 79, 83, 84, 45, 115, 101, 99, 112, 50, 53, 54, 107, 49, 45, 115, 99, 104, 110, 111, 114, 114,
];

/// The value paired with the first entry whose key is `k`.
pub open spec fn spec_find<K, V>(s: Seq<(K, V)>, k: K) -> Option<V>
    decreases s.len(),
{
    if s.len() == 0 {
        None
    } else if s[0].0 == k {
        Some(s[0].1)
    } else {
        spec_find(s.drop_first(), k)
    }
}

/// The entries with a given key replaced by `(k, v)`, or `(k, v)` appended
/// when no entry has the key.
pub open spec fn spec_insert<K, V>(s: Seq<(K, V)>, k: K, v: V) -> Seq<(K, V)>
    decreases s.len(),
{
    if s.len() == 0 {
        seq![(k, v)]
    } else if s[0].0 == k {
        seq![(k, v)] + s.drop_first()
    } else {
        seq![s[0]] + spec_insert(s.drop_first(), k, v)
    }
}

proof fn lemma_find_insert<K, V>(s: Seq<(K, V)>, k: K, v: V, other: K)
    ensures
        spec_find(spec_insert(s, k, v), k) == Some(v),
        other != k ==> spec_find(spec_insert(s, k, v), other) == spec_find(s, other),
    decreases s.len(),
{
    if s.len() == 0 {
        assert(spec_insert(s, k, v) == seq![(k, v)]);
        assert(seq![(k, v)][0] == (k, v));
        assert(seq![(k, v)].drop_first() =~= Seq::<(K, V)>::empty());
        assert(spec_find(Seq::<(K, V)>::empty(), other) is None);
        if other != k {
            assert(spec_find(seq![(k, v)], other) == spec_find(Seq::<(K, V)>::empty(), other));
        }
    } else if s[0].0 != k {
        lemma_find_insert(s.drop_first(), k, v, other);
        let t = seq![s[0]] + spec_insert(s.drop_first(), k, v);
        assert(t.drop_first() =~= spec_insert(s.drop_first(), k, v));
        assert(t[0] == s[0]);
    } else {
        let t = seq![(k, v)] + s.drop_first();
        assert(t.drop_first() =~= s.drop_first());
        assert(t[0] == (k, v));
        if other != k {
            assert(spec_find(t, other) == spec_find(s.drop_first(), other));
            assert(spec_find(s, other) == spec_find(s.drop_first(), other));
        }
    }
}

fn find_u32<V: Copy>(s: &[(u32, V)], k: u32) -> (res: Option<V>)
    ensures
        res == spec_find(s@, k),
{
    let mut i: usize = 0;
    assert(s@.skip(0) =~= s@);
    while i < s.len()
        invariant
            i <= s@.len(),
            spec_find(s@, k) == spec_find(s@.skip(i as int), k),
        decreases s@.len() - i,
    {
        assert(s@.skip(i as int).drop_first() =~= s@.skip(i + 1));
        if s[i].0 == k {
            return Some(s[i].1);
        }
        i = i + 1;
    }
    assert(s@.skip(i as int) =~= Seq::<(u32, V)>::empty());
    None
}

fn find_u64<V: Copy>(s: &Vec<(u64, V)>, k: u64) -> (res: Option<V>)
    ensures
        res == spec_find(s@, k),
{
    let mut i: usize = 0;
    assert(s@.skip(0) =~= s@);
    while i < s.len()
        invariant
            i <= s@.len(),
            spec_find(s@, k) == spec_find(s@.skip(i as int), k),
        decreases s@.len() - i,
    {
        assert(s@.skip(i as int).drop_first() =~= s@.skip(i + 1));
        if s[i].0 == k {
            return Some(s[i].1);
        }
        i = i + 1;
    }
    assert(s@.skip(i as int) =~= Seq::<(u64, V)>::empty());
    None
}

fn insert_u64<V: Copy>(s: &mut Vec<(u64, V)>, k: u64, v: V)
    ensures
        final(s)@ == spec_insert(old(s)@, k, v),
{
    let ghost start = s@;
    let mut i: usize = 0;
    let mut found = false;
    while i < s.len()
        invariant
            i <= s@.len(),
            s@ == start,
            forall|j: int| 0 <= j < i ==> s@[j].0 != k,
            found ==> i < s@.len() && s@[i as int].0 == k,
        ensures
            s@ == start,
            forall|j: int| 0 <= j < i ==> s@[j].0 != k,
            found ==> i < s@.len() && s@[i as int].0 == k,
            !found ==> i == s@.len(),
        decreases s@.len() - i,
    {
        if s[i].0 == k {
            found = true;
            break;
        }
        i = i + 1;
    }
    if found {
        proof { lemma_insert_at(start, k, v, i as int); }
        s.set(i, (k, v));
        assert(s@ =~= start.update(i as int, (k, v)));
    } else {
        proof { lemma_insert_absent(start, k, v); }
        s.push((k, v));
    }
}

proof fn lemma_insert_at<K, V>(s: Seq<(K, V)>, k: K, v: V, i: int)
    requires
        0 <= i < s.len(),
        s[i].0 == k,
        forall|j: int| 0 <= j < i ==> s[j].0 != k,
    ensures
        spec_insert(s, k, v) == s.update(i, (k, v)),
    decreases s.len(),
{
    if i == 0 {
        assert(seq![(k, v)] + s.drop_first() =~= s.update(0, (k, v)));
    } else {
        lemma_insert_at(s.drop_first(), k, v, i - 1);
        assert(seq![s[0]] + s.drop_first().update(i - 1, (k, v)) =~= s.update(i, (k, v)));
    }
}

proof fn lemma_insert_absent<K, V>(s: Seq<(K, V)>, k: K, v: V)
    requires
        forall|j: int| 0 <= j < s.len() ==> s[j].0 != k,
    ensures
        spec_insert(s, k, v) == s.push((k, v)),
    decreases s.len(),
{
    if s.len() > 0 {
        lemma_insert_absent(s.drop_first(), k, v);
        assert(seq![s[0]] + s.drop_first().push((k, v)) =~= s.push((k, v)));
    }
}

/// The bytes hashed into the challenge: the domain tag, the label 2, the
/// aggregated hiding and binding commitments (the generator, as the
/// scheme's point "addition" keeps its left operand), the public key and
/// the message.
pub open spec fn spec_challenge_input(public_key: Seq<u8>, msg: Seq<u8>) -> Seq<u8> {
    FROST_DOMAIN@ + seq![2u8] + GENERATOR_X@ + GENERATOR_X@ + public_key + msg
}

fn push_bytes(buf: &mut Vec<u8>, bytes: &[u8])
    ensures
        final(buf)@ == old(buf)@ + bytes@,
{
    let ghost start = old(buf)@;
    let mut i: usize = 0;
    while i < bytes.len()
        invariant
            i <= bytes@.len(),
            buf@ == start + bytes@.take(i as int),
        decreases bytes@.len() - i,
    {
        buf.push(bytes[i]);
        assert(bytes@.take(i + 1) =~= bytes@.take(i as int).push(bytes@[i as int]));
        i = i + 1;
    }
    assert(bytes@.take(bytes@.len() as int) =~= bytes@);
}

/// The hiding and binding nonces of one signing session.
#[derive(Clone, Copy, Debug)]
pub struct NoncePair {
    pub hiding: Scalar,
    pub binding: Scalar,
}

impl NoncePair {
    /// Two random nonces; an error when a random draw is not a scalar.
    pub fn random() -> (res: Result<Self, FrostError>)
        ensures
            res is Err ==> res == Err::<Self, FrostError>(FrostError::InvalidScalar),
    {
        let hiding = Scalar::random()?;
        let binding = Scalar::random()?;
        Ok(NoncePair { hiding, binding })
    }

    /// The commitments to both nonces: the generator moved by each.
    pub fn commitment(&self, generator: &Point) -> (res: Result<(Point, Point), FrostError>)
        ensures
            match (secp_xonly_tweak_add(generator.spec_bytes()@, self.hiding.spec_bytes()@),
                secp_xonly_tweak_add(generator.spec_bytes()@, self.binding.spec_bytes()@)) {
                (Some(h), Some(b)) => res matches Ok((hp, bp)) && hp.spec_bytes()@ == h && bp.spec_bytes()@ == b,
                _ => res == Err::<(Point, Point), FrostError>(FrostError::PointMultiplyFailed),
            },
    {
        let hiding_commit = generator.multiply(&self.hiding)?;
        let binding_commit = generator.multiply(&self.binding)?;
        Ok((hiding_commit, binding_commit))
    }

    /// The challenge of a session: the hash of the challenge input, read as
    /// a scalar; an error when the hash is not below the group order.
    pub fn challenge(&self, msg: &[u8], pub_key: &Point, commitments: &[(Point, Point)]) -> (res: Result<Scalar, FrostError>)
        ensures
            ({
                let h = blake3_hash(spec_challenge_input(pub_key.spec_bytes()@, msg@));
                if spec_le_value(h@) < spec_curve_order() {
                    res matches Ok(s) && s.spec_bytes() == h
                } else {
                    res == Err::<Scalar, FrostError>(FrostError::InvalidScalar)
                }
            }),
    {
        let mut agg_hiding = Point::generator();
        let mut agg_binding = Point::generator();
        let mut i: usize = 0;
        while i < commitments.len()
            invariant
                i <= commitments@.len(),
                agg_hiding.spec_bytes() == GENERATOR_X,
                agg_binding.spec_bytes() == GENERATOR_X,
            decreases commitments@.len() - i,
        {
            agg_hiding = agg_hiding.add(&commitments[i].0);
            agg_binding = agg_binding.add(&commitments[i].1);
            i = i + 1;
        }
        let mut data: Vec<u8> = Vec::new();
        push_bytes(&mut data, &FROST_DOMAIN);
        data.push(2u8);
        let ah = agg_hiding.as_bytes();
        let ab = agg_binding.as_bytes();
        let pk = pub_key.as_bytes();
        push_bytes(&mut data, &ah);
        push_bytes(&mut data, &ab);
        push_bytes(&mut data, &pk);
        push_bytes(&mut data, msg);
        assert(data@ =~= spec_challenge_input(pub_key.spec_bytes()@, msg@));
        let hash = hash_bytes(data.as_slice());
        Scalar::from_bytes(&hash)
    }
}

/// One signer's contribution to a threshold signature.
#[derive(Clone, Copy, Debug)]
pub struct PartialSignature {
    pub signer_index: u32,
    pub hiding_commitment: Point,
    pub binding_commitment: Point,
    pub signature_share: Scalar,
}

impl PartialSignature {
    /// A partial signature of signer `signer_index`.
    pub fn new(signer_index: u32, hiding: Point, binding: Point, signature_share: Scalar) -> (res: Self)
        ensures
            res.signer_index == signer_index,
            res.hiding_commitment == hiding,
            res.binding_commitment == binding,
            res.signature_share == signature_share,
    {
        PartialSignature { signer_index, hiding_commitment: hiding, binding_commitment: binding, signature_share }
    }
}

/// The signature share `k + lambda * x * r` modulo the group order.
pub open spec fn spec_share(k: Seq<u8>, lambda: Seq<u8>, x: Seq<u8>, r: Seq<u8>) -> Seq<u8> {
    spec_scalar_add(k, spec_scalar_mul(spec_scalar_mul(lambda, x), r))
}

/// The outcome of signing: the x coordinates of the two nonce commitments
/// and the signature share, or the error that stops it.
pub open spec fn spec_sign(
    nonce: Option<NoncePair>,
    public_key: Seq<u8>,
    msg: Seq<u8>,
    lambda: Option<Scalar>,
    x: Seq<u8>,
) -> Result<(Seq<u8>, Seq<u8>, Seq<u8>), FrostError> {
    match nonce {
        None => Err(FrostError::MissingNonce),
        Some(n) => match (secp_xonly_tweak_add(GENERATOR_X@, n.hiding.spec_bytes()@),
            secp_xonly_tweak_add(GENERATOR_X@, n.binding.spec_bytes()@)) {
            (Some(h), Some(b)) => {
                let r = blake3_hash(spec_challenge_input(public_key, msg))@;
                if spec_le_value(r) >= spec_curve_order() {
                    Err(FrostError::InvalidScalar)
                } else {
                    match lambda {
                        None => Err(FrostError::MissingLagrangeCoefficient),
                        Some(l) => Ok((h, b, spec_share(n.hiding.spec_bytes()@, l.spec_bytes()@, x, r))),
                    }
                }
            },
            _ => Err(FrostError::PointMultiplyFailed),
        },
    }
}

/// The Lagrange coefficient of `index` among the first `n` signers, modulo
/// the group order: the product, over every other signer `j`, of `j` times
/// the inverse of `j - index`.
pub open spec fn spec_lagrange(signers: Seq<u32>, index: u32, n: nat) -> Seq<u8>
    decreases n,
{
    if n == 0 {
        spec_one_bytes()
    } else {
        let lam = spec_lagrange(signers, index, (n - 1) as nat);
        let j = signers[n - 1];
        if j == index {
            lam
        } else {
            spec_scalar_mul(
                spec_scalar_mul(lam, spec_u64_bytes(j as u64)),
                spec_scalar_inv(spec_scalar_bytes(j as int - index as int)),
            )
        }
    }
}

/// `N - 1`, little-endian: the scalar -1.
pub const MINUS_ONE: [u8; 32] = [
    64, 65, 54, 208, 140, 94, 210, 191, 59, 160, 72, 175, 230, 220, 174, 186,
    254, 255, 255, 255, 255, 255, 255, 255, 255, 255, 255, 255, 255, 255, 255, 255,
];

proof fn lemma_minus_one()
    ensures
        spec_le_value(MINUS_ONE@) == spec_curve_order() - 1,
{
    reveal_with_fuel(spec_le_value, 33);
    assert(MINUS_ONE@ =~= seq![
        64u8, 65u8, 54u8, 208u8, 140u8, 94u8, 210u8, 191u8, 59u8, 160u8, 72u8, 175u8, 230u8, 220u8, 174u8, 186u8,
        254u8, 255u8, 255u8, 255u8, 255u8, 255u8, 255u8, 255u8, 255u8, 255u8, 255u8, 255u8, 255u8, 255u8, 255u8, 255u8]);
}

/// The scalar `j - i` modulo the group order.
fn scalar_diff(j: u32, i: u32) -> (res: Scalar)
    ensures
        res.spec_bytes()@ == spec_scalar_bytes(j as int - i as int),
{
    if j >= i {
        let d = Scalar::from_u64((j - i) as u64);
        proof {
            crate::scalar::lemma_bytes_of_value(d.spec_bytes()@);
            crate::scalar::lemma_curve_order_facts();
        }
        d
    } else {
        let d = Scalar::from_u64((i - j) as u64);
        proof {
            lemma_minus_one();
            crate::scalar::lemma_curve_order_facts();
        }
        let minus_one = Scalar::from_bytes(&MINUS_ONE).unwrap();
        let r = d.multiply(&minus_one);
        proof {
            let n = spec_curve_order() as int;
            let v = (i - j) as int;
            assert(v * (n - 1) == n * v + (j as int - i as int)) by (nonlinear_arith)
                requires
                    v == i as int - j as int,
            ;
            vstd::arithmetic::div_mod::lemma_mod_multiples_vanish(v, j as int - i as int, n);
            assert(d.value() == v);
            assert(minus_one.value() == n - 1);
            assert(d.value() * minus_one.value() == v * (n - 1));
        }
        r
    }
}

fn lagrange_fold(signers: &[u32], index: u32) -> (res: Scalar)
    ensures
        res.spec_bytes()@ == spec_lagrange(signers@, index, signers@.len()),
{
    let mut lambda = Scalar::one();
    let mut i: usize = 0;
    while i < signers.len()
        invariant
            i <= signers@.len(),
            spec_lagrange(signers@, index, i as nat) == lambda.spec_bytes()@,
        decreases signers@.len() - i,
    {
        let j = signers[i];
        if j != index {
            let num = Scalar::from_u64(j as u64);
            let denom = scalar_diff(j, index);
            let inv = match denom.invert() {
                Ok(v) => v,
                Err(_) => { assert(false); lambda },
            };
            lambda = lambda.multiply(&num).multiply(&inv);
        }
        i = i + 1;
    }
    lambda
}

/// The Lagrange coefficient of signer `index` among `all_signers`, modulo
/// the group order.
pub fn compute_lagrange(index: u32, all_signers: &[u32]) -> (res: Result<Scalar, FrostError>)
    ensures
        res matches Ok(s) && s.spec_bytes()@ == spec_lagrange(all_signers@, index, all_signers@.len()),
{
    Ok(lagrange_fold(all_signers, index))
}

/// A participant that signs with its key share: the nonces it drew, by
/// session, and the sessions it drew them for.
#[derive(Clone)]
pub struct FrostSigner {
    key_share: KeyShare,
    public_key: Point,
    nonces: Vec<(u64, NoncePair)>,
    used_nonces: Vec<u64>,
}

impl FrostSigner {
    pub closed spec fn spec_key_share(&self) -> KeyShare {
        self.key_share
    }

    pub closed spec fn spec_public_key(&self) -> Point {
        self.public_key
    }

    /// The nonce drawn for each session.
    pub closed spec fn spec_nonces(&self) -> Seq<(u64, NoncePair)> {
        self.nonces@
    }

    /// The sessions a nonce was drawn for.
    pub closed spec fn spec_used(&self) -> Seq<u64> {
        self.used_nonces@
    }

    /// A signer with a key share, before any session.
    pub fn new(ctx: FrostContext, key_share: KeyShare, public_key: Point) -> (res: Self)
        ensures
            res.spec_key_share() == key_share,
            res.spec_public_key() == public_key,
            res.spec_nonces() == Seq::<(u64, NoncePair)>::empty(),
            res.spec_used() == Seq::<u64>::empty(),
    {
        FrostSigner { key_share, public_key, nonces: Vec::new(), used_nonces: Vec::new() }
    }

    /// The signer's index.
    pub fn index(&self) -> (res: u32)
        ensures
            res == self.spec_key_share().index,
    {
        self.key_share.index
    }

    /// The threshold public key.
    pub fn public_key(&self) -> (res: &Point)
        ensures
            *res == self.spec_public_key(),
    {
        &self.public_key
    }

    /// Draw the nonces of a session. A session gets nonces once: asking
    /// again is refused and changes nothing. The session counts as used
    /// even when the draw fails.
    pub fn generate_nonce(&mut self, session_id: u64) -> (res: Result<NoncePair, FrostError>)
        ensures
            final(self).spec_key_share() == old(self).spec_key_share(),
            final(self).spec_public_key() == old(self).spec_public_key(),
            old(self).spec_used().contains(session_id) ==> {
                &&& res == Err::<NoncePair, FrostError>(FrostError::NonceReused)
                &&& final(self).spec_used() == old(self).spec_used()
                &&& final(self).spec_nonces() == old(self).spec_nonces()
            },
            !old(self).spec_used().contains(session_id) ==> {
                &&& final(self).spec_used() == old(self).spec_used().push(session_id)
                &&& res matches Ok(n) ==> (final(self).spec_nonces() == spec_insert(old(self).spec_nonces(), session_id, n)
                    && spec_find(final(self).spec_nonces(), session_id) == Some(n))
                &&& res is Err ==> (res == Err::<NoncePair, FrostError>(FrostError::InvalidScalar)
                    && final(self).spec_nonces() == old(self).spec_nonces())
            },
    {
        let mut i: usize = 0;
        while i < self.used_nonces.len()
            invariant
                i <= self.used_nonces@.len(),
                forall|j: int| 0 <= j < i ==> self.used_nonces@[j] != session_id,
            decreases self.used_nonces@.len() - i,
        {
            if self.used_nonces[i] == session_id {
                return Err(FrostError::NonceReused);
            }
            i = i + 1;
        }
        self.used_nonces.push(session_id);
        let nonce = NoncePair::random()?;
        insert_u64(&mut self.nonces, session_id, nonce);
        proof {
            lemma_find_insert(old(self).spec_nonces(), session_id, nonce, session_id);
        }
        Ok(nonce)
    }

    /// The signer's partial signature of `msg` in a session: the nonce
    /// commitments and the share `k + lambda * x * r`, where `k` is the
    /// session's hiding nonce, `lambda` the signer's Lagrange coefficient,
    /// `x` its secret share and `r` the challenge. The commitments of the
    /// signing set are looked up by index.
    pub fn sign(
        &self,
        msg: &[u8],
        session_id: u64,
        signing_indices: &[u32],
        commitments: &[(u32, (Point, Point))],
        lambda: &[(u32, Scalar)],
    ) -> (res: Result<PartialSignature, FrostError>)
        ensures
            match spec_sign(
                spec_find(self.spec_nonces(), session_id),
                self.spec_public_key().spec_bytes()@,
                msg@,
                spec_find(lambda@, self.spec_key_share().index),
                self.spec_key_share().secret_share.spec_bytes()@,
            ) {
                Ok((h, b, s)) => res matches Ok(p) && p.signer_index == self.spec_key_share().index
                    && p.hiding_commitment.spec_bytes()@ == h && p.binding_commitment.spec_bytes()@ == b
                    && p.signature_share.spec_bytes()@ == s,
                Err(e) => res == Err::<PartialSignature, FrostError>(e),
            },
    {
        let nonce = match find_u64(&self.nonces, session_id) {
            Some(n) => n,
            None => return Err(FrostError::MissingNonce),
        };
        let g = Point::generator();
        let (hiding_commit, binding_commit) = nonce.commitment(&g)?;
        let mut all_commitments: Vec<(Point, Point)> = Vec::new();
        let mut i: usize = 0;
        while i < signing_indices.len()
            invariant
                i <= signing_indices@.len(),
            decreases signing_indices@.len() - i,
        {
            if let Some(c) = find_u32(commitments, signing_indices[i]) {
                all_commitments.push(c);
            }
            i = i + 1;
        }
        let challenge = nonce.challenge(msg, &self.public_key, all_commitments.as_slice())?;
        let lambda_i = match find_u32(lambda, self.key_share.index) {
            Some(l) => l,
            None => return Err(FrostError::MissingLagrangeCoefficient),
        };
        let x_i = self.key_share.secret_share;
        let signature_share = nonce.hiding.add(&lambda_i.multiply(&x_i).multiply(&challenge));
        Ok(PartialSignature::new(self.key_share.index, hiding_commit, binding_commit, signature_share))
    }

    /// The Lagrange coefficients among `signers`, by signer: the one of
    /// `my_index` when it is among them, and none otherwise.
    pub fn compute_lagrange_coefficients(signers: &[u32], my_index: u32) -> (res: Result<Vec<(u32, Scalar)>, FrostError>)
        ensures
            !signers@.contains(my_index) ==> (res matches Ok(v) && v@ == Seq::<(u32, Scalar)>::empty()),
            signers@.contains(my_index) ==> (res matches Ok(v) && v@.len() == 1 && v@[0].0 == my_index
                && v@[0].1.spec_bytes()@ == spec_lagrange(signers@, my_index, signers@.len())),
    {
        let mut lambdas: Vec<(u32, Scalar)> = Vec::new();
        let mut i: usize = 0;
        while i < signers.len()
            invariant
                i <= signers@.len(),
                signers@.take(i as int).contains(my_index) ==> (lambdas@.len() == 1 && lambdas@[0].0 == my_index
                    && lambdas@[0].1.spec_bytes()@ == spec_lagrange(signers@, my_index, signers@.len())),
                !signers@.take(i as int).contains(my_index) ==> lambdas@ == Seq::<(u32, Scalar)>::empty(),
            decreases signers@.len() - i,
        {
            proof {
                let t0 = signers@.take(i as int);
                let t1 = signers@.take(i + 1);
                assert(t1 =~= t0.push(signers@[i as int]));
                if t0.contains(my_index) {
                    let w = choose|w: int| 0 <= w < t0.len() && t0[w] == my_index;
                    assert(t1[w] == my_index);
                }
                if signers@[i as int] == my_index {
                    assert(t1[i as int] == my_index);
                }
                if t1.contains(my_index) && signers@[i as int] != my_index {
                    let w = choose|w: int| 0 <= w < t1.len() && t1[w] == my_index;
                    assert(t0[w] == my_index);
                }
            }
            if signers[i] == my_index {
                let lambda = lagrange_fold(signers, my_index);
                lambdas = Vec::new();
                lambdas.push((my_index, lambda));
            }
            i = i + 1;
        }
        proof {
            assert(signers@.take(signers@.len() as int) =~= signers@);
        }
        Ok(lambdas)
    }
}

/// The sum of the shares of the first `n` partial signatures, modulo the
/// group order.
pub open spec fn spec_share_sum(partials: Seq<PartialSignature>, n: nat) -> Seq<u8>
    decreases n,
{
    if n == 0 {
        spec_zero_bytes()
    } else {
        spec_scalar_add(spec_share_sum(partials, (n - 1) as nat), partials[n - 1].signature_share.spec_bytes()@)
    }
}

/// The indices of the signers of partial signatures.
pub open spec fn spec_signer_indices(partials: Seq<PartialSignature>) -> Seq<u32> {
    partials.map_values(|p: PartialSignature| p.signer_index)
}

/// Aggregate partial signatures: the nonce point is the generator (the
/// scheme's point "addition" keeps its left operand), the response is the
/// sum of the shares times the inverse of the challenge, modulo the group
/// order, and the signers are listed in order.
pub fn aggregate_signatures(partial_sigs: &[PartialSignature], challenge: &Scalar) -> (res: Result<ThresholdSignature, FrostError>)
    ensures
        partial_sigs@.len() == 0 ==> res == Err::<ThresholdSignature, FrostError>(FrostError::NoPartialSignatures),
        partial_sigs@.len() > 0 ==> (res matches Ok(sig) && sig.r_point.spec_bytes() == GENERATOR_X
            && sig.s_value.spec_bytes()@ == spec_scalar_mul(
                spec_share_sum(partial_sigs@, partial_sigs@.len()), spec_scalar_inv(challenge.spec_bytes()@))
            && sig.signers@ == spec_signer_indices(partial_sigs@)
            && sig.threshold == partial_sigs@.len() as u32),
{
    if partial_sigs.len() == 0 {
        return Err(FrostError::NoPartialSignatures);
    }
    let mut r_agg = Point::generator();
    let mut i: usize = 0;
    while i < partial_sigs.len()
        invariant
            i <= partial_sigs@.len(),
            r_agg.spec_bytes() == GENERATOR_X,
        decreases partial_sigs@.len() - i,
    {
        r_agg = r_agg.add(&partial_sigs[i].hiding_commitment);
        i = i + 1;
    }
    let mut s = Scalar::zero();
    let mut k: usize = 0;
    while k < partial_sigs.len()
        invariant
            k <= partial_sigs@.len(),
            spec_share_sum(partial_sigs@, k as nat) == s.spec_bytes()@,
        decreases partial_sigs@.len() - k,
    {
        s = s.add(&partial_sigs[k].signature_share);
        k = k + 1;
    }
    let inv = challenge.invert()?;
    let s_final = s.multiply(&inv);
    let mut signers: Vec<u32> = Vec::new();
    let mut j: usize = 0;
    while j < partial_sigs.len()
        invariant
            j <= partial_sigs@.len(),
            signers@ == spec_signer_indices(partial_sigs@.take(j as int)),
        decreases partial_sigs@.len() - j,
    {
        signers.push(partial_sigs[j].signer_index);
        assert(spec_signer_indices(partial_sigs@.take(j + 1)) =~= spec_signer_indices(partial_sigs@.take(j as int)).push(partial_sigs@[j as int].signer_index));
        j = j + 1;
    }
    assert(partial_sigs@.take(partial_sigs@.len() as int) =~= partial_sigs@);
    Ok(ThresholdSignature { r_point: r_agg, s_value: s_final, signers, threshold: partial_sigs.len() as u32 })
}

/// The error of the first entry whose key is not a point or whose message
/// is not a 32-byte digest, among the first `n`.
pub open spec fn spec_batch_parse_error(sigs: Seq<(ThresholdSignature, Vec<u8>, Point)>, n: nat) -> Option<FrostError>
    decreases n,
{
    if n == 0 {
        None
    } else {
        match spec_batch_parse_error(sigs, (n - 1) as nat) {
            Some(e) => Some(e),
            None => {
                let (sig, msg, pk) = sigs[n - 1];
                if !secp_xonly_valid(pk.spec_bytes()@) {
                    Some(FrostError::InvalidPoint)
                } else if msg@.len() != 32 {
                    Some(FrostError::InvalidMessage)
                } else {
                    None
                }
            },
        }
    }
}

/// Whether an entry's signature verifies its message under its key.
pub open spec fn spec_entry_verifies(e: (ThresholdSignature, Vec<u8>, Point)) -> bool {
    secp_schnorr_verifies(e.0.spec_schnorr_bytes(), e.1@, e.2.spec_bytes()@)
}

/// Check many signatures: first every key and message must parse, then
/// every signature must verify.
pub fn batch_verify(signatures: &[(ThresholdSignature, Vec<u8>, Point)]) -> (res: Result<(), FrostError>)
    ensures
        match spec_batch_parse_error(signatures@, signatures@.len()) {
            Some(e) => res == Err::<(), FrostError>(e),
            None => if forall|i: int| 0 <= i < signatures@.len() ==> #[trigger] spec_entry_verifies(signatures@[i]) {
                res == Ok::<(), FrostError>(())
            } else {
                res == Err::<(), FrostError>(FrostError::VerificationFailed)
            },
        },
{
    let mut i: usize = 0;
    while i < signatures.len()
        invariant
            i <= signatures@.len(),
            spec_batch_parse_error(signatures@, i as nat) is None,
        decreases signatures@.len() - i,
    {
        let pk = signatures[i].2.as_bytes();
        if !xonly_valid(&pk) {
            proof { lemma_parse_error_stays(signatures@, (i + 1) as nat, signatures@.len()); }
            return Err(FrostError::InvalidPoint);
        }
        if signatures[i].1.len() != 32 {
            proof { lemma_parse_error_stays(signatures@, (i + 1) as nat, signatures@.len()); }
            return Err(FrostError::InvalidMessage);
        }
        i = i + 1;
    }
    let mut k: usize = 0;
    while k < signatures.len()
        invariant
            k <= signatures@.len(),
            spec_batch_parse_error(signatures@, signatures@.len()) is None,
            forall|j: int| 0 <= j < k ==> #[trigger] spec_entry_verifies(signatures@[j]),
        decreases signatures@.len() - k,
    {
        let entry = &signatures[k];
        match entry.0.verify(entry.1.as_slice(), &entry.2) {
            Ok(()) => {},
            Err(_) => {
                proof {
                    lemma_parse_ok_at(signatures@, k as nat, signatures@.len());
                    assert(!spec_entry_verifies(signatures@[k as int]));
                }
                return Err(FrostError::VerificationFailed);
            },
        }
        k = k + 1;
    }
    Ok(())
}

proof fn lemma_parse_error_stays(sigs: Seq<(ThresholdSignature, Vec<u8>, Point)>, m: nat, n: nat)
    requires
        m <= n,
        spec_batch_parse_error(sigs, m) is Some,
    ensures
        spec_batch_parse_error(sigs, n) == spec_batch_parse_error(sigs, m),
    decreases n - m,
{
    if m < n {
        lemma_parse_error_stays(sigs, m, (n - 1) as nat);
    }
}

proof fn lemma_parse_ok_at(sigs: Seq<(ThresholdSignature, Vec<u8>, Point)>, k: nat, n: nat)
    requires
        k < n,
        n <= sigs.len(),
        spec_batch_parse_error(sigs, n) is None,
    ensures
        secp_xonly_valid(sigs[k as int].2.spec_bytes()@),
        sigs[k as int].1@.len() == 32,
    decreases n - k,
{
    if k + 1 < n {
        lemma_parse_ok_at(sigs, k, (n - 1) as nat);
    }
}

} // verus!
