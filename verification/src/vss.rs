//! Verifiable secret sharing for the threshold scheme: the secret
//! polynomial, its commitment, the shares and the generated key material.

use vstd::prelude::*;
use crate::frost::{secp_xonly_tweak_add, FrostContext, FrostError, Point, GENERATOR_X};
use crate::scalar::{
    lemma_bytes_of_value, lemma_le_value_zeros, lemma_scalar_bytes, spec_curve_order, spec_le_bytes, spec_le_value,
    spec_scalar_add, spec_scalar_mul, Scalar,
};

verus! {

/// The bytes of the scalar 0.
pub open spec fn spec_zero_bytes() -> Seq<u8> {
    Seq::new(32, |k: int| 0u8)
}

/// The bytes of the scalar 1.
pub open spec fn spec_one_bytes() -> Seq<u8> {
    seq![1u8] + Seq::new(31, |k: int| 0u8)
}

/// The bytes of the scalar whose value is `n`.
pub open spec fn spec_u64_bytes(n: u64) -> Seq<u8> {
    spec_le_bytes(n as nat, 8) + Seq::new(24, |k: int| 0u8)
}

/// The running value and power of the index after the first `n`
/// coefficients of an evaluation: each coefficient is multiplied by the
/// power and added in, and the power is multiplied by the index, all
/// modulo the group order.
pub open spec fn spec_eval_steps(coeffs: Seq<Scalar>, index: Seq<u8>, n: nat) -> (Seq<u8>, Seq<u8>)
    decreases n,
{
    if n == 0 {
        (spec_zero_bytes(), spec_one_bytes())
    } else {
        let (acc, xp) = spec_eval_steps(coeffs, index, (n - 1) as nat);
        (spec_scalar_add(acc, spec_scalar_mul(coeffs[n - 1].spec_bytes()@, xp)), spec_scalar_mul(xp, index))
    }
}

/// The value of the polynomial with these coefficients at `index`,
/// modulo the group order.
pub open spec fn spec_evaluate(coeffs: Seq<Scalar>, index: Seq<u8>) -> Seq<u8> {
    spec_eval_steps(coeffs, index, coeffs.len()).0
}

/// The secret polynomial of a sharing; its constant term is the secret.
#[derive(Debug)]
pub struct SecretPolynomial {
    coefficients: Vec<Scalar>,
}

impl SecretPolynomial {
    /// A polynomial has a coefficient.
    #[verifier::type_invariant]
    spec fn has_coefficient(self) -> bool {
        self.coefficients@.len() >= 1
    }

    /// The coefficients, constant term first.
    pub closed spec fn spec_coefficients(self) -> Seq<Scalar> {
        self.coefficients@
    }

    /// A polynomial of degree `threshold - 1` (at least a constant) with
    /// random coefficients; an error when a random draw is not a scalar.
    pub fn new(threshold: usize) -> (res: Result<Self, FrostError>)
        ensures
            res matches Ok(p) ==> p.spec_coefficients().len() == (if threshold == 0 { 1 } else { threshold }),
            res is Err ==> res == Err::<Self, FrostError>(FrostError::InvalidScalar),
    {
        let mut coefficients: Vec<Scalar> = Vec::new();
        coefficients.push(Scalar::random()?);
        let mut i: usize = 1;
        while i < threshold
            invariant
                1 <= i <= (if threshold == 0 { 1 } else { threshold }),
                coefficients@.len() == i,
            decreases threshold - i,
        {
            coefficients.push(Scalar::random()?);
            i = i + 1;
        }
        Ok(SecretPolynomial { coefficients })
    }

    /// The polynomial from its coefficients, constant term first.
    pub(crate) fn from_coefficients(coefficients: Vec<Scalar>) -> (res: Self)
        requires
            coefficients@.len() >= 1,
        ensures
            res.spec_coefficients() == coefficients@,
    {
        SecretPolynomial { coefficients }
    }

    /// The value at `index`: each coefficient times the running power of
    /// the index, summed, modulo the group order.
    pub fn evaluate(&self, index: &Scalar) -> (res: Scalar)
        ensures
            res.spec_bytes()@ == spec_evaluate(self.spec_coefficients(), index.spec_bytes()@),
    {
        let mut result = Scalar::zero();
        let mut x_pow = Scalar::one();
        proof {
            lemma_zero_one_values();
        }
        let mut i: usize = 0;
        while i < self.coefficients.len()
            invariant
                i <= self.coefficients@.len(),
                spec_eval_steps(self.coefficients@, index.spec_bytes()@, i as nat)
                    == (result.spec_bytes()@, x_pow.spec_bytes()@),
            decreases self.coefficients@.len() - i,
        {
            let term = self.coefficients[i].multiply(&x_pow);
            result = result.add(&term);
            x_pow = x_pow.multiply(index);
            i = i + 1;
        }
        result
    }

    /// The constant term: the shared secret.
    pub fn secret(&self) -> (res: &Scalar)
        ensures
            *res == self.spec_coefficients()[0],
    {
        proof {
            use_type_invariant(self);
        }
        &self.coefficients[0]
    }

    /// All coefficients, constant term first.
    pub fn coefficients(&self) -> (res: &[Scalar])
        ensures
            res@ == self.spec_coefficients(),
    {
        self.coefficients.as_slice()
    }
}

impl Clone for SecretPolynomial {
    fn clone(&self) -> (res: Self)
        ensures
            res.spec_coefficients() == self.spec_coefficients(),
    {
        proof {
            use_type_invariant(self);
        }
        let mut coefficients: Vec<Scalar> = Vec::new();
        let mut i: usize = 0;
        while i < self.coefficients.len()
            invariant
                i <= self.coefficients@.len(),
                coefficients@ == self.coefficients@.take(i as int),
            decreases self.coefficients@.len() - i,
        {
            coefficients.push(self.coefficients[i]);
            assert(self.coefficients@.take(i + 1) =~= self.coefficients@.take(i as int).push(self.coefficients@[i as int]));
            i = i + 1;
        }
        assert(self.coefficients@.take(self.coefficients@.len() as int) =~= self.coefficients@);
        SecretPolynomial { coefficients }
    }
}


/// Whether the commitments are those of these coefficients under the
/// generator `g`: `g` itself for the constant term, then `g` moved by each
/// further coefficient.
pub open spec fn spec_commits_to(comms: Seq<Point>, coeffs: Seq<Scalar>, g: Point) -> bool {
    &&& comms.len() == coeffs.len()
    &&& comms.len() >= 1
    &&& comms[0] == g
    &&& forall|i: int| 1 <= i < comms.len() ==>
        secp_xonly_tweak_add(g.spec_bytes()@, coeffs[i].spec_bytes()@) == Some(#[trigger] comms[i].spec_bytes()@)
}

/// Whether every further coefficient can move the point with x
/// coordinate `g`.
pub open spec fn spec_all_tweaks_ok(coeffs: Seq<Scalar>, g: Seq<u8>) -> bool {
    forall|i: int| 1 <= i < coeffs.len() ==>
        #[trigger] secp_xonly_tweak_add(g, coeffs[i].spec_bytes()@) is Some
}

/// Whether a key can be dealt from these coefficients: every coefficient
/// moves the generator.
pub open spec fn spec_deal_ok(coeffs: Seq<Scalar>) -> bool {
    &&& spec_all_tweaks_ok(coeffs, GENERATOR_X@)
    &&& secp_xonly_tweak_add(GENERATOR_X@, coeffs[0].spec_bytes()@) is Some
}

/// The `n`-th power of the index modulo the group order.
pub open spec fn spec_pow_steps(index: Seq<u8>, n: nat) -> Seq<u8>
    decreases n,
{
    if n == 0 {
        spec_one_bytes()
    } else {
        spec_scalar_mul(spec_pow_steps(index, (n - 1) as nat), index)
    }
}

/// Whether the commitments `1..=n` can be moved by the matching powers of
/// the index.
pub open spec fn spec_share_terms_ok(comms: Seq<Point>, index: Seq<u8>, n: nat) -> bool
    decreases n,
{
    if n == 0 {
        true
    } else {
        spec_share_terms_ok(comms, index, (n - 1) as nat)
            && secp_xonly_tweak_add(comms[n as int].spec_bytes()@, spec_pow_steps(index, n)) is Some
    }
}

/// The outcome of checking a share at `index` against commitments: the
/// scheme moves the generator by the share, moves every commitment by a
/// power of the index, and accepts when the moved generator is the
/// generator again (its x-only point "addition" keeps the left operand).
pub open spec fn spec_verify_share(comms: Seq<Point>, index: Seq<u8>, share: Seq<u8>) -> Result<(), FrostError> {
    let n = (comms.len() - 1) as nat;
    match secp_xonly_tweak_add(GENERATOR_X@, share) {
        None => Err(FrostError::PointMultiplyFailed),
        Some(moved) => if !spec_share_terms_ok(comms, index, n) {
            Err(FrostError::PointMultiplyFailed)
        } else if secp_xonly_tweak_add(comms[0].spec_bytes()@, spec_pow_steps(index, n)) is None {
            Err(FrostError::PointMultiplyFailed)
        } else if moved != GENERATOR_X@ {
            Err(FrostError::ShareMismatch)
        } else {
            Ok(())
        },
    }
}

/// Commitments to the coefficients of a secret polynomial.
#[derive(Debug)]
pub struct PolynomialCommitment {
    commitments: Vec<Point>,
}

impl PolynomialCommitment {
    /// A commitment has a commitment to the secret.
    #[verifier::type_invariant]
    spec fn has_secret_commitment(self) -> bool {
        self.commitments@.len() >= 1
    }

    /// The commitments, the secret's first.
    pub closed spec fn spec_commitments(self) -> Seq<Point> {
        self.commitments@
    }

    /// The commitments of a polynomial under `generator`: the generator for
    /// the secret, then the generator moved by each further coefficient.
    pub fn from_polynomial(polynomial: &SecretPolynomial, generator: &Point) -> (res: Result<Self, FrostError>)
        ensures
            res is Ok <==> spec_all_tweaks_ok(polynomial.spec_coefficients(), generator.spec_bytes()@),
            res matches Ok(c) ==> spec_commits_to(c.spec_commitments(), polynomial.spec_coefficients(), *generator),
            res is Err ==> res == Err::<Self, FrostError>(FrostError::PointMultiplyFailed),
    {
        proof {
            use_type_invariant(polynomial);
        }
        let coeffs = polynomial.coefficients();
        let mut commitments: Vec<Point> = Vec::new();
        commitments.push(*generator);
        let mut i: usize = 1;
        while i < coeffs.len()
            invariant
                1 <= i <= coeffs@.len(),
                coeffs@ == polynomial.spec_coefficients(),
                commitments@.len() == i,
                commitments@[0] == *generator,
                forall|k: int| 1 <= k < i ==>
                    secp_xonly_tweak_add(generator.spec_bytes()@, coeffs@[k].spec_bytes()@) == Some(#[trigger] commitments@[k].spec_bytes()@),
            decreases coeffs@.len() - i,
        {
            match generator.multiply(&coeffs[i]) {
                Ok(p) => commitments.push(p),
                Err(e) => return Err(e),
            }
            i = i + 1;
        }
        assert forall|k: int| 1 <= k < coeffs@.len() implies
            #[trigger] secp_xonly_tweak_add(generator.spec_bytes()@, coeffs@[k].spec_bytes()@) is Some by {
            assert(secp_xonly_tweak_add(generator.spec_bytes()@, coeffs@[k].spec_bytes()@) == Some(commitments@[k].spec_bytes()@));
        }
        Ok(PolynomialCommitment { commitments })
    }

    /// Check a share at `index` against the commitments. The powers of the
    /// index used must stay below the group order.
    pub fn verify_share(&self, index: &Scalar, share: &Scalar) -> (res: Result<(), FrostError>)
        ensures
            res == spec_verify_share(self.spec_commitments(), index.spec_bytes()@, share.spec_bytes()@),
    {
        proof {
            use_type_invariant(self);
        }
        let g = Point::generator();
        let g_share = g.multiply(share)?;
        let mut commitment_eval = Point::generator();
        let mut x_pow = Scalar::one();
        let n = self.commitments.len() - 1;
        assert(n < usize::MAX);
        let mut i: usize = 1;
        proof {
            lemma_zero_one_values();
        }
        while i <= n
            invariant
                1 <= i <= n + 1,
                n < usize::MAX,
                n == self.commitments@.len() - 1,
                spec_pow_steps(index.spec_bytes()@, (i - 1) as nat) == x_pow.spec_bytes()@,
                spec_share_terms_ok(self.commitments@, index.spec_bytes()@, (i - 1) as nat),
                commitment_eval.spec_bytes() == GENERATOR_X,
                secp_xonly_tweak_add(GENERATOR_X@, share.spec_bytes()@) == Some(g_share.spec_bytes()@),
            decreases n + 1 - i,
        {
            x_pow = x_pow.multiply(index);
            let term = match self.commitments[i].multiply(&x_pow) {
                Ok(t) => t,
                Err(e) => {
                    proof { lemma_terms_stay_failed(self.commitments@, index.spec_bytes()@, i as nat, n as nat); }
                    return Err(e);
                },
            };
            commitment_eval = commitment_eval.add(&term);
            i = i + 1;
        }
        let last = self.commitments[0].multiply(&x_pow)?;
        commitment_eval = commitment_eval.add(&last);
        let moved = g_share.as_bytes();
        let base = commitment_eval.as_bytes();
        if !crate::hashing::digest_eq(&moved, &base) {
            proof {
                if moved@ == GENERATOR_X@ {
                    assert(moved =~= GENERATOR_X);
                }
            }
            return Err(FrostError::ShareMismatch);
        }
        Ok(())
    }

    /// The commitment to the secret: the public key.
    pub fn secret_commitment(&self) -> (res: &Point)
        ensures
            *res == self.spec_commitments()[0],
    {
        proof {
            use_type_invariant(self);
        }
        &self.commitments[0]
    }

    /// All commitments, the secret's first.
    pub fn commitments(&self) -> (res: &[Point])
        ensures
            res@ == self.spec_commitments(),
    {
        self.commitments.as_slice()
    }
}

impl Clone for PolynomialCommitment {
    fn clone(&self) -> (res: Self)
        ensures
            res.spec_commitments() == self.spec_commitments(),
    {
        proof {
            use_type_invariant(self);
        }
        let mut commitments: Vec<Point> = Vec::new();
        let mut i: usize = 0;
        while i < self.commitments.len()
            invariant
                i <= self.commitments@.len(),
                commitments@ == self.commitments@.take(i as int),
            decreases self.commitments@.len() - i,
        {
            commitments.push(self.commitments[i]);
            assert(self.commitments@.take(i + 1) =~= self.commitments@.take(i as int).push(self.commitments@[i as int]));
            i = i + 1;
        }
        assert(self.commitments@.take(self.commitments@.len() as int) =~= self.commitments@);
        PolynomialCommitment { commitments }
    }
}


/// Once a commitment cannot be moved, the check of all of them fails.
proof fn lemma_terms_stay_failed(comms: Seq<Point>, index: Seq<u8>, m: nat, n: nat)
    requires
        m <= n,
        !spec_share_terms_ok(comms, index, m),
    ensures
        !spec_share_terms_ok(comms, index, n),
    decreases n - m,
{
    if m < n {
        lemma_terms_stay_failed(comms, index, m, (n - 1) as nat);
    }
}

/// One participant's share of the secret, with the commitments to check it.
#[derive(Clone, Debug)]
pub struct KeyShare {
    pub index: u32,
    pub secret_share: Scalar,
    pub polynomial_commitment: PolynomialCommitment,
}

impl KeyShare {
    /// A share for participant `index`.
    pub fn new(index: u32, secret_share: Scalar, commitment: PolynomialCommitment) -> (res: Self)
        ensures
            res.index == index,
            res.secret_share == secret_share,
            res.polynomial_commitment == commitment,
    {
        KeyShare { index, secret_share, polynomial_commitment: commitment }
    }

    /// The commitment to the secret: the public key.
    pub fn public_key_share(&self) -> (res: &Point)
        ensures
            *res == self.polynomial_commitment.spec_commitments()[0],
    {
        self.polynomial_commitment.secret_commitment()
    }
}

/// A generated threshold key: the secret, its public key, every
/// participant's share and the commitments.
#[derive(Clone, Debug)]
pub struct ThresholdKeyMaterial {
    pub secret_key: Scalar,
    pub public_key: Point,
    pub shares: Vec<KeyShare>,
    pub polynomial_commitment: PolynomialCommitment,
    pub threshold: usize,
    pub num_shares: usize,
}

/// Whether key material was dealt from the polynomial with coefficients
/// `coeffs` to `participants`: the secret is the constant term, the public
/// key is the generator moved by it, the commitments are the polynomial's,
/// and each participant's share is the polynomial's value at its index.
pub open spec fn spec_dealt_from(km: ThresholdKeyMaterial, coeffs: Seq<Scalar>, participants: Seq<u32>) -> bool {
    &&& coeffs.len() >= 1
    &&& coeffs[0] == km.secret_key
    &&& secp_xonly_tweak_add(GENERATOR_X@, km.secret_key.spec_bytes()@) == Some(km.public_key.spec_bytes()@)
    &&& spec_commits_to(km.polynomial_commitment.spec_commitments(), coeffs, km.polynomial_commitment.spec_commitments()[0])
    &&& km.polynomial_commitment.spec_commitments()[0].spec_bytes() == GENERATOR_X
    &&& km.shares@.len() == participants.len()
    &&& forall|i: int| 0 <= i < participants.len() ==> {
        &&& (#[trigger] km.shares@[i]).index == participants[i]
        &&& km.shares@[i].polynomial_commitment.spec_commitments() == km.polynomial_commitment.spec_commitments()
        &&& spec_evaluate(coeffs, spec_u64_bytes(participants[i] as u64)) == km.shares@[i].secret_share.spec_bytes()@
    }
}

impl ThresholdKeyMaterial {
    /// Deal a new threshold key to `participants`: a random polynomial with
    /// as many coefficients as the context's threshold, dealt as `deal`
    /// does. An error when a random draw is not a scalar, or when a drawn
    /// coefficient cannot move the generator.
    pub fn generate(ctx: &FrostContext, participants: &[u32]) -> (res: Result<Self, FrostError>)
        ensures
            res matches Ok(km) ==> km.threshold == ctx.spec_min_signers(),
            res matches Ok(km) ==> km.num_shares == participants@.len(),
            res matches Ok(km) ==> exists|coeffs: Seq<Scalar>|
                coeffs.len() == (if ctx.spec_min_signers() == 0 { 1 } else { ctx.spec_min_signers() as int })
                && #[trigger] spec_dealt_from(km, coeffs, participants@),
            res == Err::<Self, FrostError>(FrostError::PointMultiplyFailed) ==> exists|coeffs: Seq<Scalar>|
                coeffs.len() == (if ctx.spec_min_signers() == 0 { 1 } else { ctx.spec_min_signers() as int })
                && !#[trigger] spec_deal_ok(coeffs),
            res matches Err(e) ==> (e == FrostError::InvalidScalar || e == FrostError::PointMultiplyFailed),
    {
        let polynomial = SecretPolynomial::new(ctx.min_signers())?;
        let res = ThresholdKeyMaterial::deal(ctx, participants, &polynomial);
        proof {
            let coeffs = polynomial.spec_coefficients();
            if res is Ok {
                let km = res->Ok_0;
                assert(spec_dealt_from(km, coeffs, participants@));
            } else {
                assert(!spec_deal_ok(coeffs));
            }
        }
        res
    }

    /// Deal a threshold key from a polynomial to `participants`: the
    /// commitments to its coefficients, the public key (the generator moved
    /// by the secret), and the share of each participant, the polynomial's
    /// value at its index. An error exactly when a coefficient cannot move
    /// the generator.
    pub fn deal(ctx: &FrostContext, participants: &[u32], polynomial: &SecretPolynomial) -> (res: Result<Self, FrostError>)
        ensures
            res is Ok <==> spec_deal_ok(polynomial.spec_coefficients()),
            res is Err ==> res == Err::<Self, FrostError>(FrostError::PointMultiplyFailed),
            res matches Ok(km) ==> km.threshold == ctx.spec_min_signers()
                && km.num_shares == participants@.len()
                && spec_dealt_from(km, polynomial.spec_coefficients(), participants@),
    {
        proof {
            use_type_invariant(polynomial);
        }
        let threshold = ctx.min_signers();
        let num_shares = participants.len();
        let generator = Point::generator();
        let commitment = PolynomialCommitment::from_polynomial(polynomial, &generator)?;
        let ghost coeffs = polynomial.spec_coefficients();
        let mut shares: Vec<KeyShare> = Vec::new();
        let mut i: usize = 0;
        while i < participants.len()
            invariant
                i <= participants@.len(),
                coeffs == polynomial.spec_coefficients(),
                shares@.len() == i,
                forall|k: int| 0 <= k < i ==> {
                    &&& (#[trigger] shares@[k]).index == participants@[k]
                    &&& shares@[k].polynomial_commitment.spec_commitments() == commitment.spec_commitments()
                    &&& spec_evaluate(coeffs, spec_u64_bytes(participants@[k] as u64)) == shares@[k].secret_share.spec_bytes()@
                },
            decreases participants@.len() - i,
        {
            let p = participants[i];
            let index_scalar = Scalar::from_u64(p as u64);
            let share = polynomial.evaluate(&index_scalar);
            shares.push(KeyShare::new(p, share, commitment.clone()));
            i = i + 1;
        }
        let secret = *polynomial.secret();
        let public_key = generator.multiply(&secret)?;
        let km = ThresholdKeyMaterial {
            secret_key: secret,
            public_key,
            shares,
            polynomial_commitment: commitment,
            threshold,
            num_shares,
        };
        let ghost dealt = km;
        let out: Result<Self, FrostError> = Ok(km);
        assert(out->Ok_0 == dealt);
        assert(spec_dealt_from(out->Ok_0, coeffs, participants@));
        out
    }

    /// The number of shares needed to sign.
    pub fn threshold(&self) -> (res: usize)
        ensures
            res == self.threshold,
    {
        self.threshold
    }

    /// The number of shares dealt.
    pub fn num_shares(&self) -> (res: usize)
        ensures
            res == self.num_shares,
    {
        self.num_shares
    }
}

proof fn lemma_zero_one_values()
    ensures
        spec_le_value(spec_zero_bytes()) == 0,
        spec_le_value(spec_one_bytes()) == 1,
        spec_zero_bytes().len() == 32,
        spec_one_bytes().len() == 32,
{
    lemma_le_value_zeros(32);
    lemma_le_value_zeros(31);
    assert(spec_one_bytes().drop_first() =~= Seq::new(31, |k: int| 0u8));
}

/// Multiplying a scalar by zero gives zero, and by one gives it back;
/// adding zero to it, on either side, gives it back.
proof fn lemma_zero_one_laws(c: Seq<u8>)
    requires
        c.len() == 32,
        spec_le_value(c) < spec_curve_order(),
    ensures
        spec_scalar_mul(c, spec_zero_bytes()) == spec_zero_bytes(),
        spec_scalar_mul(c, spec_one_bytes()) == c,
        spec_scalar_add(c, spec_zero_bytes()) == c,
        spec_scalar_add(spec_zero_bytes(), c) == c,
{
    lemma_zero_one_values();
    let v = spec_le_value(c);
    assert(v * 0 == 0);
    assert(v * 1 == v);
    lemma_bytes_of_value(c);
    lemma_bytes_of_value(spec_zero_bytes());
    lemma_curve_order_pos();
}

proof fn lemma_curve_order_pos()
    ensures
        spec_curve_order() > 1,
{
}

/// A polynomial's value at zero is its constant term: the dealt secret.
pub proof fn lemma_evaluate_at_zero(coeffs: Seq<Scalar>)
    requires
        coeffs.len() >= 1,
        forall|i: int| 0 <= i < coeffs.len() ==> #[trigger] coeffs[i].value() < spec_curve_order(),
    ensures
        spec_evaluate(coeffs, spec_zero_bytes()) == coeffs[0].spec_bytes()@,
{
    lemma_eval_at_zero_steps(coeffs, coeffs.len());
}

proof fn lemma_eval_at_zero_steps(coeffs: Seq<Scalar>, n: nat)
    requires
        1 <= n <= coeffs.len(),
        forall|i: int| 0 <= i < coeffs.len() ==> #[trigger] coeffs[i].value() < spec_curve_order(),
    ensures
        spec_eval_steps(coeffs, spec_zero_bytes(), n) == (coeffs[0].spec_bytes()@, spec_zero_bytes()),
    decreases n,
{
    lemma_zero_one_values();
    let z = spec_zero_bytes();
    let c0 = coeffs[0].spec_bytes()@;
    assert(coeffs[0].value() < spec_curve_order());
    if n == 1 {
        assert(spec_eval_steps(coeffs, z, 0) == (z, spec_one_bytes()));
        lemma_zero_one_laws(c0);
        lemma_zero_one_laws(spec_one_bytes());
    } else {
        let m = (n - 1) as nat;
        lemma_eval_at_zero_steps(coeffs, m);
        let cm = coeffs[m as int].spec_bytes()@;
        assert(coeffs[m as int].value() < spec_curve_order());
        lemma_zero_one_laws(cm);
        lemma_zero_one_laws(c0);
        lemma_zero_one_laws(z);
    }
}

} // verus!
