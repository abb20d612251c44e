//! Scalars of the threshold scheme: 32 little-endian bytes whose value is
//! below the order of secp256k1, with the scheme's own byte arithmetic.

use vstd::prelude::*;
use crate::frost::FrostError;
use crate::hashing::random_bytes32;

verus! {

/// The value of little-endian bytes.
pub open spec fn spec_le_value(b: Seq<u8>) -> nat
    decreases b.len(),
{
    if b.len() == 0 {
        0
    } else {
        b[0] as nat + 256 * spec_le_value(b.drop_first())
    }
}

/// 256 to the power `n`.
pub open spec fn spec_pow256(n: nat) -> nat
    decreases n,
{
    if n == 0 {
        1
    } else {
        256 * spec_pow256((n - 1) as nat)
    }
}

/// The order of the secp256k1 group.
pub open spec fn spec_curve_order() -> nat {
    0xFFFFFFFFFFFFFFFFFFFFFFFFFFFFFFFEBAAEDCE6AF48A03BBFD25E8CD0364141nat
}

/// The first `n` little-endian bytes of `v`.
pub open spec fn spec_le_bytes(v: nat, n: nat) -> Seq<u8>
    decreases n,
{
    if n == 0 {
        Seq::empty()
    } else {
        spec_le_bytes(v, (n - 1) as nat).push(((v / spec_pow256((n - 1) as nat)) % 256) as u8)
    }
}

pub proof fn lemma_pow256_facts()
    ensures
        spec_pow256(0) == 1,
        spec_pow256(1) == 256,
        spec_pow256(8) == 0x1_0000_0000_0000_0000nat,
{
    reveal_with_fuel(spec_pow256, 9);
}

pub proof fn lemma_pow256_pos(n: nat)
    ensures
        spec_pow256(n) > 0,
    decreases n,
{
    if n > 0 {
        lemma_pow256_pos((n - 1) as nat);
    }
}

pub proof fn lemma_pow256_mono(m: nat, n: nat)
    requires
        m <= n,
    ensures
        spec_pow256(m) <= spec_pow256(n),
    decreases n,
{
    if m < n {
        lemma_pow256_mono(m, (n - 1) as nat);
    }
}

/// Little-endian bytes are worth less than 256 to the power of their count.
pub proof fn lemma_le_value_bound(b: Seq<u8>)
    ensures
        spec_le_value(b) < spec_pow256(b.len()),
    decreases b.len(),
{
    if b.len() > 0 {
        lemma_le_value_bound(b.drop_first());
    }
}

/// Appending a byte adds it at the weight of the position it takes.
pub proof fn lemma_le_value_push(b: Seq<u8>, x: u8)
    ensures
        spec_le_value(b.push(x)) == spec_le_value(b) + spec_pow256(b.len()) * x,
    decreases b.len(),
{
    if b.len() == 0 {
        assert(b.push(x).drop_first() =~= Seq::<u8>::empty());
        assert(spec_le_value(Seq::<u8>::empty()) == 0);
        assert(spec_le_value(b) == 0);
        assert(spec_pow256(0) == 1);
        assert(spec_le_value(b.push(x)) == x);
        assert(spec_le_value(b.push(x)) == spec_le_value(b) + spec_pow256(b.len()) * x);
    } else {
        assert(b.push(x).drop_first() =~= b.drop_first().push(x));
        lemma_le_value_push(b.drop_first(), x);
        let p = spec_pow256((b.len() - 1) as nat);
        assert(spec_pow256(b.len()) == 256 * p);
        assert(b.push(x)[0] == b[0]);
        assert(spec_le_value(b.push(x)) == b[0] + 256 * spec_le_value(b.drop_first().push(x)));
        assert(256 * (spec_le_value(b.drop_first()) + p * x) == 256 * spec_le_value(b.drop_first()) + (256 * p) * x)
            by (nonlinear_arith);
        assert(spec_le_value(b.drop_first().push(x)) == spec_le_value(b.drop_first()) + p * x);
        assert(spec_le_value(b) == b[0] + 256 * spec_le_value(b.drop_first()));
        assert(spec_le_value(b.push(x)) == spec_le_value(b) + spec_pow256(b.len()) * x);
    }
}

/// The value of a concatenation.
pub proof fn lemma_le_value_concat(a: Seq<u8>, b: Seq<u8>)
    ensures
        spec_le_value(a + b) == spec_le_value(a) + spec_pow256(a.len()) * spec_le_value(b),
    decreases a.len(),
{
    if a.len() == 0 {
        assert(a + b =~= b);
        assert(spec_le_value(a) == 0);
        assert(spec_pow256(0) == 1);
        assert(spec_le_value(a + b) == spec_le_value(a) + spec_pow256(a.len()) * spec_le_value(b));
    } else {
        assert((a + b).drop_first() =~= a.drop_first() + b);
        lemma_le_value_concat(a.drop_first(), b);
        let p = spec_pow256((a.len() - 1) as nat);
        let vb = spec_le_value(b);
        assert(spec_pow256(a.len()) == 256 * p);
        assert((a + b)[0] == a[0]);
        assert(spec_le_value(a + b) == a[0] + 256 * spec_le_value(a.drop_first() + b));
        assert(256 * (spec_le_value(a.drop_first()) + p * vb) == 256 * spec_le_value(a.drop_first()) + (256 * p) * vb)
            by (nonlinear_arith);
        assert(spec_le_value(a.drop_first() + b) == spec_le_value(a.drop_first()) + p * vb);
        assert(spec_le_value(a) == a[0] + 256 * spec_le_value(a.drop_first()));
        assert(spec_le_value(a + b) == spec_le_value(a) + spec_pow256(a.len()) * spec_le_value(b));
    }
}

/// The first `n` little-endian bytes of `v` are worth `v` modulo 256^n.
pub proof fn lemma_le_bytes_value(v: nat, n: nat)
    ensures
        spec_le_bytes(v, n).len() == n,
        spec_le_value(spec_le_bytes(v, n)) == v % spec_pow256(n),
    decreases n,
{
    if n == 0 {
        assert(spec_le_bytes(v, 0) =~= Seq::<u8>::empty());
    } else {
        let m = (n - 1) as nat;
        lemma_le_bytes_value(v, m);
        let p = spec_pow256(m);
        lemma_pow256_pos(m);
        let x = ((v / p) % 256) as u8;
        lemma_le_value_push(spec_le_bytes(v, m), x);
        vstd::arithmetic::div_mod::lemma_breakdown(v as int, p as int, 256);
        assert(p * 256 == spec_pow256(n));
    }
}

/// The little-endian bytes of a value below 256^n are worth it.
pub proof fn lemma_le_bytes_exact(v: nat, n: nat)
    requires
        v < spec_pow256(n),
    ensures
        spec_le_value(spec_le_bytes(v, n)) == v,
{
    lemma_le_bytes_value(v, n);
    vstd::arithmetic::div_mod::lemma_small_mod(v, spec_pow256(n));
}

/// Calls `secp256k1::Scalar::from_le_bytes`, which accepts the bytes when
/// their value is below the group order, and gives back its
/// `to_le_bytes`, the same bytes.
#[verifier::external_body]
fn secp_scalar_from_le(bytes: &[u8; 32]) -> (res: Option<[u8; 32]>)
    ensures
        res is Some <==> spec_le_value(bytes@) < spec_curve_order(),
        res matches Some(b) ==> b == *bytes,
{
    secp256k1::Scalar::from_le_bytes(*bytes).ok().map(|s| s.to_le_bytes())
}

/// Appends the eight little-endian bytes of `v`.
fn push_limb(out: &mut Vec<u8>, v: u64)
    ensures
        final(out)@ == old(out)@ + spec_le_bytes(v as nat, 8),
{
    let ghost start = out@;
    let mut w: u64 = v;
    let mut k: usize = 0;
    proof {
        lemma_pow256_facts();
        assert(spec_le_bytes(v as nat, 0) =~= Seq::<u8>::empty());
    }
    while k < 8
        invariant
            k <= 8,
            out@ == start + spec_le_bytes(v as nat, k as nat),
            w == v as nat / spec_pow256(k as nat),
        decreases 8 - k,
    {
        proof {
            lemma_pow256_pos(k as nat);
            vstd::arithmetic::div_mod::lemma_div_denominator(v as int, spec_pow256(k as nat) as int, 256);
        }
        out.push((w % 256) as u8);
        w = w / 256;
        k = k + 1;
        assert(out@ =~= start + spec_le_bytes(v as nat, k as nat));
    }
}

fn to_array(v: &Vec<u8>) -> (res: [u8; 32])
    requires
        v@.len() == 32,
    ensures
        res@ == v@,
{
    let mut out = [0u8; 32];
    let mut i: usize = 0;
    while i < 32
        invariant
            i <= 32,
            v@.len() == 32,
            forall|j: int| 0 <= j < i ==> out@[j] == v@[j],
        decreases 32 - i,
    {
        out[i] = v[i];
        i = i + 1;
    }
    assert(out@ =~= v@);
    out
}

/// The 32 little-endian bytes of `v` modulo the group order.
pub open spec fn spec_scalar_bytes(v: int) -> Seq<u8> {
    spec_le_bytes((v % (spec_curve_order() as int)) as nat, 32)
}

/// The bytes of the sum of two scalars modulo the group order.
pub open spec fn spec_scalar_add(a: Seq<u8>, b: Seq<u8>) -> Seq<u8> {
    spec_scalar_bytes((spec_le_value(a) + spec_le_value(b)) as int)
}

/// The bytes of the product of two scalars modulo the group order.
pub open spec fn spec_scalar_mul(a: Seq<u8>, b: Seq<u8>) -> Seq<u8> {
    spec_scalar_bytes((spec_le_value(a) * spec_le_value(b)) as int)
}

/// The bytes of a scalar raised to the power `N - 2` modulo the group
/// order: its inverse when it is not zero.
pub open spec fn spec_scalar_inv(a: Seq<u8>) -> Seq<u8> {
    spec_scalar_bytes(vstd::arithmetic::power::pow(spec_le_value(a) as int, (spec_curve_order() - 2) as nat))
}

/// `N - 2`, little-endian.
pub const INVERSE_EXPONENT: [u8; 32] = [
    63, 65, 54, 208, 140, 94, 210, 191, 59, 160, 72, 175, 230, 220, 174, 186,
    254, 255, 255, 255, 255, 255, 255, 255, 255, 255, 255, 255, 255, 255, 255, 255,
];

/// Reads `a` with `secp256k1::Scalar::from_le_bytes`, makes it a
/// `SecretKey` with `SecretKey::from_slice` of its big-endian bytes (which
/// refuses zero), calls `add_tweak` with `b` read the same way, and gives
/// the little-endian bytes of the result. `add_tweak` adds modulo the group
/// order and refuses a zero sum.
#[verifier::external_body]
fn secp_add_mod(a: &[u8; 32], b: &[u8; 32]) -> (res: Option<[u8; 32]>)
    ensures
        0 < spec_le_value(a@) < spec_curve_order() && spec_le_value(b@) < spec_curve_order() ==> (res is Some
            <==> (spec_le_value(a@) + spec_le_value(b@)) % spec_curve_order() != 0),
        res matches Some(r) ==> spec_le_value(r@) == (spec_le_value(a@) + spec_le_value(b@)) % spec_curve_order(),
{
    let key = secp256k1::SecretKey::from_slice(&secp256k1::Scalar::from_le_bytes(*a).ok()?.to_be_bytes()).ok()?;
    let tweak = secp256k1::Scalar::from_le_bytes(*b).ok()?;
    Some(secp256k1::Scalar::from(key.add_tweak(&tweak).ok()?).to_le_bytes())
}

/// As `secp_add_mod`, with `mul_tweak`: the product modulo the group order,
/// which `mul_tweak` refuses only for a zero tweak; as the order is prime,
/// two non-zero scalars have a non-zero product.
#[verifier::external_body]
fn secp_mul_mod(a: &[u8; 32], b: &[u8; 32]) -> (res: Option<[u8; 32]>)
    ensures
        0 < spec_le_value(a@) < spec_curve_order() && 0 < spec_le_value(b@) < spec_curve_order() ==> res is Some,
        res matches Some(r) ==> spec_le_value(r@) == (spec_le_value(a@) * spec_le_value(b@)) % spec_curve_order(),
{
    let key = secp256k1::SecretKey::from_slice(&secp256k1::Scalar::from_le_bytes(*a).ok()?.to_be_bytes()).ok()?;
    let tweak = secp256k1::Scalar::from_le_bytes(*b).ok()?;
    Some(secp256k1::Scalar::from(key.mul_tweak(&tweak).ok()?).to_le_bytes())
}

/// A scalar of the threshold scheme: 32 little-endian bytes.
#[derive(Clone, Copy, Debug, PartialEq, Eq)]
pub struct Scalar {
    bytes: [u8; 32],
}

impl Scalar {
    /// A scalar's value is below the group order.
    #[verifier::type_invariant]
    spec fn below_order(self) -> bool {
        spec_le_value(self.bytes@) < spec_curve_order()
    }

    /// The scalar's little-endian bytes.
    pub closed spec fn spec_bytes(self) -> [u8; 32] {
        self.bytes
    }

    /// The scalar's value.
    pub open spec fn value(self) -> nat {
        spec_le_value(self.spec_bytes()@)
    }

    /// The scalar with these little-endian bytes, when their value is below
    /// the group order.
    pub fn from_bytes(bytes: &[u8; 32]) -> (res: Result<Scalar, FrostError>)
        ensures
            res is Ok <==> spec_le_value(bytes@) < spec_curve_order(),
            res matches Ok(s) ==> s.spec_bytes() == *bytes,
            res is Err ==> res == Err::<Scalar, FrostError>(FrostError::InvalidScalar),
    {
        match secp_scalar_from_le(bytes) {
            Some(b) => Ok(Scalar { bytes: b }),
            None => Err(FrostError::InvalidScalar),
        }
    }

    /// A scalar from 32 random bytes; an error in the rare case that their
    /// value is not below the group order.
    pub fn random() -> (res: Result<Scalar, FrostError>)
        ensures
            res matches Ok(s) ==> s.value() < spec_curve_order(),
            res is Err ==> res == Err::<Scalar, FrostError>(FrostError::InvalidScalar),
    {
        let bytes = random_bytes32();
        Scalar::from_bytes(&bytes)
    }

    /// The scalar whose value is `n`.
    pub fn from_u64(n: u64) -> (res: Scalar)
        ensures
            res.spec_bytes()@ == spec_le_bytes(n as nat, 8) + Seq::new(24, |k: int| 0u8),
            res.value() == n,
    {
        let mut v: Vec<u8> = Vec::new();
        push_limb(&mut v, n);
        let ghost low = v@;
        let mut k: usize = 0;
        while k < 24
            invariant
                k <= 24,
                v@ == low + Seq::new(k as nat, |i: int| 0u8),
            decreases 24 - k,
        {
            v.push(0u8);
            k = k + 1;
            assert(v@ =~= low + Seq::new(k as nat, |i: int| 0u8));
        }
        proof {
            assert(low =~= spec_le_bytes(n as nat, 8));
            lemma_le_bytes_value(n as nat, 8);
            lemma_pow256_facts();
            vstd::arithmetic::div_mod::lemma_small_mod(n as nat, spec_pow256(8));
            lemma_le_value_concat(low, Seq::new(24, |i: int| 0u8));
            lemma_le_value_zeros(24);
            lemma_curve_order_facts();
            assert(spec_le_value(v@) == n);
        }
        let bytes = to_array(&v);
        Scalar { bytes: secp_scalar_from_le(&bytes).unwrap() }
    }

    /// The little-endian bytes.
    pub fn as_bytes(&self) -> (res: [u8; 32])
        ensures
            res == self.spec_bytes(),
    {
        self.bytes
    }

    /// The little-endian bytes, as a vector.
    pub fn to_vec(&self) -> (res: Vec<u8>)
        ensures
            res@ == self.spec_bytes()@,
    {
        let mut v: Vec<u8> = Vec::new();
        let mut i: usize = 0;
        while i < 32
            invariant
                i <= 32,
                v@ == self.bytes@.take(i as int),
            decreases 32 - i,
        {
            v.push(self.bytes[i]);
            assert(self.bytes@.take(i + 1) =~= self.bytes@.take(i as int).push(self.bytes@[i as int]));
            i = i + 1;
        }
        assert(self.bytes@.take(32) =~= self.bytes@);
        v
    }

    /// The sum modulo the group order.
    pub fn add(&self, other: &Scalar) -> (res: Scalar)
        ensures
            res.spec_bytes()@ == spec_scalar_add(self.spec_bytes()@, other.spec_bytes()@),
            res.value() == (self.value() + other.value()) % spec_curve_order(),
    {
        proof {
            use_type_invariant(self);
            use_type_invariant(other);
            lemma_scalar_bytes((self.value() + other.value()) as int);
        }
        if is_zero(&self.bytes) {
            proof {
                vstd::arithmetic::div_mod::lemma_small_mod(other.value(), spec_curve_order());
                lemma_bytes_of_value(other.bytes@);
            }
            return *other;
        }
        match secp_add_mod(&self.bytes, &other.bytes) {
            Some(r) => {
                proof {
                    lemma_le_value_injective(r@, spec_scalar_add(self.bytes@, other.bytes@));
                }
                Scalar { bytes: r }
            },
            None => {
                let z = Scalar::zero();
                proof {
                    lemma_le_value_injective(z.bytes@, spec_scalar_add(self.bytes@, other.bytes@));
                }
                z
            },
        }
    }

    /// The product modulo the group order.
    pub fn multiply(&self, other: &Scalar) -> (res: Scalar)
        ensures
            res.spec_bytes()@ == spec_scalar_mul(self.spec_bytes()@, other.spec_bytes()@),
            res.value() == (self.value() * other.value()) % spec_curve_order(),
    {
        proof {
            use_type_invariant(self);
            use_type_invariant(other);
            lemma_scalar_bytes((self.value() * other.value()) as int);
        }
        if is_zero(&self.bytes) || is_zero(&other.bytes) {
            let z = Scalar::zero();
            proof {
                assert(self.value() * other.value() == 0) by (nonlinear_arith)
                    requires
                        self.value() == 0 || other.value() == 0,
                ;
                lemma_le_value_injective(z.bytes@, spec_scalar_mul(self.bytes@, other.bytes@));
            }
            return z;
        }
        let r = secp_mul_mod(&self.bytes, &other.bytes).unwrap();
        proof {
            lemma_le_value_injective(r@, spec_scalar_mul(self.bytes@, other.bytes@));
        }
        Scalar { bytes: r }
    }

    /// The inverse modulo the group order: the scalar raised to the power
    /// `N - 2`, by squaring and multiplying over the bits of `N - 2` from the
    /// top. For a non-zero scalar this is its inverse, the order `N` being
    /// prime; zero gives zero.
    pub fn invert(&self) -> (res: Result<Scalar, FrostError>)
        ensures
            res matches Ok(r) && r.spec_bytes()@ == spec_scalar_inv(self.spec_bytes()@),
    {
        proof {
            use_type_invariant(self);
        }
        let va = Ghost(self.value() as int);
        let n = Ghost(spec_curve_order() as int);
        let mut r = Scalar::one();
        let ghost mut e: nat = 0;
        proof {
            assert(INVERSE_EXPONENT@.subrange(32, 32) =~= Seq::<u8>::empty());
            vstd::arithmetic::power::lemma_pow0(va@);
            vstd::arithmetic::div_mod::lemma_small_mod(1, spec_curve_order());
        }
        let mut i: usize = 32;
        while i > 0
            invariant
                i <= 32,
                self.value() < spec_curve_order(),
                va@ == self.value(),
                n@ == spec_curve_order(),
                e == spec_le_value(INVERSE_EXPONENT@.subrange(i as int, 32)),
                r.value() == vstd::arithmetic::power::pow(va@, e) % n@,
            decreases i,
        {
            i = i - 1;
            let byte = INVERSE_EXPONENT[i] as u32;
            let ghost e0 = e;
            let mut t: u32 = 0;
            proof {
                assert((byte >> 8u32) == 0u32) by (bit_vector)
                    requires
                        byte < 256,
                ;
                vstd::arithmetic::power2::lemma2_to64();
            }
            while t < 8
                invariant
                    t <= 8,
                    byte < 256,
                    self.value() < spec_curve_order(),
                    va@ == self.value(),
                    n@ == spec_curve_order(),
                    e == e0 * vstd::arithmetic::power2::pow2(t as nat) + (byte >> ((8 - t) as u32)),
                    r.value() == vstd::arithmetic::power::pow(va@, e) % n@,
                decreases 8 - t,
            {
                let bit = (byte >> (7 - t)) & 1;
                proof {
                    let s1 = (7 - t) as u32;
                    lemma_bit_step(byte, s1);
                    assert(((8 - t) as u32) == (s1 + 1) as u32);
                    vstd::arithmetic::power2::lemma_pow2_adds(t as nat, 1);
                    vstd::arithmetic::power2::lemma2_to64();
                }
                let sq = r.multiply(&r);
                proof {
                    vstd::arithmetic::power::lemma_pow_adds(va@, e, e);
                    vstd::arithmetic::div_mod::lemma_mul_mod_noop(
                        vstd::arithmetic::power::pow(va@, e), vstd::arithmetic::power::pow(va@, e), n@);
                    e = e + e;
                }
                if bit == 1 {
                    r = sq.multiply(self);
                    proof {
                        vstd::arithmetic::power::lemma_pow1(va@);
                        vstd::arithmetic::power::lemma_pow_adds(va@, e, 1);
                        vstd::arithmetic::div_mod::lemma_small_mod(self.value(), spec_curve_order());
                        vstd::arithmetic::div_mod::lemma_mul_mod_noop(vstd::arithmetic::power::pow(va@, e), va@, n@);
                        e = e + 1;
                    }
                } else {
                    r = sq;
                }
                proof {
                    let lo = byte >> ((8 - t) as u32);
                    let hi = byte >> ((8 - (t + 1)) as u32);
                    assert(e == e0 * vstd::arithmetic::power2::pow2((t + 1) as nat) + hi) by (nonlinear_arith)
                        requires
                            vstd::arithmetic::power2::pow2((t + 1) as nat) == vstd::arithmetic::power2::pow2(t as nat) * 2,
                            hi == 2 * lo + bit,
                            e == 2 * (e0 * vstd::arithmetic::power2::pow2(t as nat) + lo) + bit,
                    ;
                }
                t = t + 1;
            }
            proof {
                assert((byte >> 0u32) == byte) by (bit_vector);
                vstd::arithmetic::power2::lemma2_to64();
                assert(e == e0 * 256 + byte) by (nonlinear_arith)
                    requires
                        e == e0 * vstd::arithmetic::power2::pow2(8) + (byte >> 0u32),
                        vstd::arithmetic::power2::pow2(8) == 256,
                        (byte >> 0u32) == byte,
                ;
                let sub = INVERSE_EXPONENT@.subrange(i as int, 32);
                assert(sub.drop_first() =~= INVERSE_EXPONENT@.subrange(i + 1, 32));
                assert(sub[0] == INVERSE_EXPONENT@[i as int]);
            }
        }
        proof {
            assert(INVERSE_EXPONENT@.subrange(0, 32) =~= INVERSE_EXPONENT@);
            lemma_inverse_exponent();
            lemma_scalar_bytes(vstd::arithmetic::power::pow(va@, e));
            lemma_le_value_injective(r.bytes@, spec_scalar_inv(self.bytes@));
        }
        Ok(r)
    }

    /// The scalar 0.
    pub fn zero() -> (res: Scalar)
        ensures
            res.value() == 0,
            res.spec_bytes()@ == Seq::new(32, |k: int| 0u8),
    {
        let bytes = [0u8; 32];
        proof {
            assert(bytes@ =~= Seq::new(32, |k: int| 0u8));
            lemma_le_value_zeros(32);
            lemma_curve_order_facts();
        }
        Scalar { bytes }
    }

    /// The scalar 1.
    pub fn one() -> (res: Scalar)
        ensures
            res.value() == 1,
            res.spec_bytes()@ == seq![1u8] + Seq::new(31, |k: int| 0u8),
    {
        let mut bytes = [0u8; 32];
        bytes[0] = 1;
        proof {
            assert(bytes@ =~= seq![1u8] + Seq::new(31, |k: int| 0u8));
            assert(bytes@.drop_first() =~= Seq::new(31, |k: int| 0u8));
            lemma_le_value_zeros(31);
            lemma_curve_order_facts();
        }
        Scalar { bytes }
    }
}

/// Zero bytes are worth nothing.
pub proof fn lemma_le_value_zeros(n: nat)
    ensures
        spec_le_value(Seq::new(n, |k: int| 0u8)) == 0,
    decreases n,
{
    if n > 0 {
        assert(Seq::new(n, |k: int| 0u8).drop_first() =~= Seq::new((n - 1) as nat, |k: int| 0u8));
        lemma_le_value_zeros((n - 1) as nat);
    }
}

pub proof fn lemma_curve_order_facts()
    ensures
        spec_curve_order() > 0x1_0000_0000_0000_0000nat,
{
}

/// Powers of 256 multiply by adding exponents.
pub proof fn lemma_pow256_add(m: nat, n: nat)
    ensures
        spec_pow256(m + n) == spec_pow256(m) * spec_pow256(n),
    decreases m,
{
    if m == 0 {
        assert(spec_pow256(0) == 1);
        assert(m + n == n);
    } else {
        lemma_pow256_add((m - 1) as nat, n);
        let p = spec_pow256((m - 1) as nat);
        let q = spec_pow256(n);
        assert(spec_pow256(m + n) == 256 * spec_pow256((m - 1 + n) as nat));
        assert(spec_pow256(m) == 256 * p);
        assert(256 * (p * q) == (256 * p) * q) by (nonlinear_arith);
    }
}

/// Bytes worth nothing are all zero.
pub proof fn lemma_le_value_zero_bytes(s: Seq<u8>, i: int)
    requires
        spec_le_value(s) == 0,
        0 <= i < s.len(),
    ensures
        s[i] == 0,
    decreases s.len(),
{
    if i > 0 {
        lemma_le_value_zero_bytes(s.drop_first(), i - 1);
    }
}

/// Byte strings of one length with one value are equal.
pub proof fn lemma_le_value_injective(s: Seq<u8>, t: Seq<u8>)
    requires
        s.len() == t.len(),
        spec_le_value(s) == spec_le_value(t),
    ensures
        s == t,
    decreases s.len(),
{
    if s.len() > 0 {
        let vs = spec_le_value(s.drop_first());
        let vt = spec_le_value(t.drop_first());
        assert(s[0] as int - t[0] as int == 256 * (vt - vs));
        if vs != vt {
            assert(256 * (vt - vs) >= 256 || 256 * (vt - vs) <= -256);
            assert(false);
        }
        lemma_le_value_injective(s.drop_first(), t.drop_first());
        assert(s =~= t) by {
            assert forall|i: int| 0 <= i < s.len() implies s[i] == t[i] by {
                if i > 0 {
                    assert(s[i] == s.drop_first()[i - 1]);
                    assert(t[i] == t.drop_first()[i - 1]);
                }
            }
        }
    } else {
        assert(s =~= t);
    }
}

/// The bytes of the value of a scalar are the scalar's bytes.
pub proof fn lemma_bytes_of_value(s: Seq<u8>)
    requires
        s.len() == 32,
        spec_le_value(s) < spec_curve_order(),
    ensures
        spec_scalar_bytes(spec_le_value(s) as int) == s,
{
    lemma_scalar_bytes(spec_le_value(s) as int);
    vstd::arithmetic::div_mod::lemma_small_mod(spec_le_value(s), spec_curve_order());
    lemma_le_value_injective(spec_scalar_bytes(spec_le_value(s) as int), s);
}

/// The bytes of `v` modulo the group order: 32 of them, worth `v % N`.
pub proof fn lemma_scalar_bytes(v: int)
    ensures
        spec_scalar_bytes(v).len() == 32,
        spec_le_value(spec_scalar_bytes(v)) == v % (spec_curve_order() as int),
        v % (spec_curve_order() as int) < spec_curve_order(),
{
    let n = spec_curve_order() as int;
    lemma_curve_order_facts();
    let m = (v % n) as nat;
    lemma_le_bytes_value(m, 32);
    lemma_pow256_below_order();
    lemma_le_bytes_exact(m, 32);
}

proof fn lemma_pow256_below_order()
    ensures
        spec_curve_order() < spec_pow256(32),
{
    reveal_with_fuel(spec_pow256, 33);
}

/// The exponent's bytes are worth `N - 2`.
proof fn lemma_inverse_exponent()
    ensures
        spec_le_value(INVERSE_EXPONENT@) == spec_curve_order() - 2,
{
    reveal_with_fuel(spec_le_value, 33);
    assert(INVERSE_EXPONENT@ =~= seq![
        63u8, 65u8, 54u8, 208u8, 140u8, 94u8, 210u8, 191u8, 59u8, 160u8, 72u8, 175u8, 230u8, 220u8, 174u8, 186u8,
        254u8, 255u8, 255u8, 255u8, 255u8, 255u8, 255u8, 255u8, 255u8, 255u8, 255u8, 255u8, 255u8, 255u8, 255u8, 255u8]);
}

/// One more bit of a byte, from the top.
proof fn lemma_bit_step(byte: u32, s1: u32)
    by (bit_vector)
    requires
        byte < 256,
        s1 < 8,
    ensures
        (byte >> s1) == 2 * (byte >> ((s1 + 1) as u32)) + ((byte >> s1) & 1u32),
        (byte >> s1) & 1u32 <= 1,
{
}

/// Whether all bytes are zero: whether the value is zero.
fn is_zero(b: &[u8; 32]) -> (res: bool)
    ensures
        res == (spec_le_value(b@) == 0),
{
    let mut i: usize = 0;
    while i < 32
        invariant
            i <= 32,
            forall|j: int| 0 <= j < i ==> b@[j] == 0,
        decreases 32 - i,
    {
        if b[i] != 0 {
            proof {
                if spec_le_value(b@) == 0 {
                    lemma_le_value_zero_bytes(b@, i as int);
                }
            }
            return false;
        }
        i = i + 1;
    }
    proof {
        assert(b@ =~= Seq::new(32, |k: int| 0u8));
        lemma_le_value_zeros(32);
    }
    true
}

} // verus!
