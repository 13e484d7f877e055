//! Scalars of the protocol: elements of the curve's prime scalar field,
//! seen through their canonical integer representative. The arithmetic is
//! done by the backend; each operation's contract states its effect on the
//! representative, modulo the field order.

use vstd::prelude::*;
use vstd::arithmetic::div_mod::lemma_small_mod;
use crate::modular::{le_bytes, le_val, lemma_mod_add_left, lemma_mod_mul_left};

verus! {

#[verifier::external_type_specification]
#[verifier::external_body]
pub struct ExStdRng(ark_std::rand::rngs::StdRng);

/// A scalar: an element of the field of `fr_order()` elements. Held in the
/// backend's representation; its mathematical value is `fr_val`.
#[verifier::external_body]
pub struct Scalar {
    pub(crate) inner: ark_secp256k1::Fr,
}

/// The order of the scalar field of secp256k1, which is also the number of
/// points of the curve group: a prime.
pub open spec fn fr_order() -> nat {
    115792089237316195423570985008687907852837564279074904382605163141518161494337nat
}

/// The canonical integer representative of a scalar, the value
/// `Fr::into_bigint` reads out; it is always below `fr_order()`.
pub uninterp spec fn fr_val(a: Scalar) -> nat;

/// The representatives of a sequence of scalars.
pub open spec fn fr_vals(s: Seq<Scalar>) -> Seq<nat> {
    Seq::new(s.len(), |i: int| fr_val(s[i]))
}

impl Scalar {
    /// Relies on `ark_ff::Fp::from(u64)`: embeds an integer into the field,
    /// reducing modulo the order.
    #[verifier::external_body]
    fn from_u64_inner(v: u64) -> (r: Scalar)
        ensures
            fr_val(r) == v as nat % fr_order(),
    {
        Scalar { inner: ark_secp256k1::Fr::from(v) }
    }

    /// The scalar with representative `v mod fr_order()`.
    pub fn from_u64(v: u64) -> (r: Scalar)
        ensures
            fr_val(r) == v as nat % fr_order(),
    {
        Scalar::from_u64_inner(v)
    }

    /// Relies on `ark_ff::UniformRand`: a scalar drawn from the generator;
    /// no more is assumed of it than that its representative is in range.
    #[verifier::external_body]
    pub fn random(rng: &mut ark_std::rand::rngs::StdRng) -> (r: Scalar)
        ensures
            fr_val(r) < fr_order(),
    {
        Scalar { inner: <ark_secp256k1::Fr as ark_std::UniformRand>::rand(rng) }
    }

    /// Relies on `core::ops::Add` for `ark_ff::Fp`: field addition adds the
    /// canonical representatives modulo the field order.
    #[verifier::external_body]
    pub fn add(&self, other: &Scalar) -> (r: Scalar)
        ensures
            fr_val(r) == (fr_val(*self) + fr_val(*other)) % fr_order(),
            fr_val(r) < fr_order(),
    {
        Scalar { inner: self.inner + other.inner }
    }

    /// Relies on `core::ops::Mul` for `ark_ff::Fp`: field multiplication
    /// multiplies the canonical representatives modulo the field order.
    #[verifier::external_body]
    pub fn mul(&self, other: &Scalar) -> (r: Scalar)
        ensures
            fr_val(r) == (fr_val(*self) * fr_val(*other)) % fr_order(),
            fr_val(r) < fr_order(),
    {
        Scalar { inner: self.inner * other.inner }
    }

    /// Relies on `ark_ff::AdditiveGroup::ZERO`: the field's zero has
    /// representative zero.
    #[verifier::external_body]
    pub fn zero() -> (r: Scalar)
        ensures
            fr_val(r) == 0,
    {
        Scalar { inner: <ark_secp256k1::Fr as ark_ff::AdditiveGroup>::ZERO }
    }

    /// Relies on `ark_ff::PrimeField::into_bigint` and
    /// `ark_ff::BigInteger::to_bytes_le`: the 32-byte little-endian
    /// encoding of the canonical representative.
    #[verifier::external_body]
    pub(crate) fn to_le_bytes(&self) -> (r: Vec<u8>)
        ensures
            r@ == le_bytes(fr_val(*self), 32),
    {
        let big = ark_ff::PrimeField::into_bigint(self.inner);
        ark_ff::BigInteger::to_bytes_le(&big)
    }

    /// The bytes read as a little-endian integer, reduced modulo the
    /// order: a fold over the field's own arithmetic, from the most
    /// significant byte down.
    pub(crate) fn from_le_bytes_mod_order(b: &Vec<u8>) -> (r: Scalar)
        ensures
            fr_val(r) == le_val(b@) % fr_order(),
            fr_val(r) < fr_order(),
    {
        let base = Scalar::from_u64(256);
        let mut acc = Scalar::zero();
        let mut i: usize = b.len();
        while i > 0
            invariant
                i <= b@.len(),
                fr_val(base) == 256,
                fr_val(acc) == le_val(b@.subrange(i as int, b@.len() as int)) % fr_order(),
            decreases i,
        {
            let ghost prev = fr_val(acc);
            i = i - 1;
            let byte_scalar = Scalar::from_u64(b[i] as u64);
            acc = acc.mul(&base).add(&byte_scalar);
            proof {
                let s = b@;
                let n = s.len() as int;
                let q = fr_order();
                let tail = s.subrange(i as int + 1, n);
                let cur = s.subrange(i as int, n);
                assert(cur.subrange(1, cur.len() as int) =~= tail);
                assert(le_val(cur) == s[i as int] + 256 * le_val(tail));
                lemma_small_mod(s[i as int] as nat, q);
                lemma_mod_mul_left(le_val(tail), 256, q);
                lemma_mod_add_left((le_val(tail) % q) * 256, s[i as int] as nat, q);
                lemma_mod_add_left(le_val(tail) * 256, s[i as int] as nat, q);
                lemma_mod_add_left(prev * 256, s[i as int] as nat, q);
            }
        }
        proof {
            assert(b@.subrange(0, b@.len() as int) =~= b@);
        }
        acc
    }

    /// Relies on `Copy` for `ark_ff::Fp`: a bitwise copy is the same field
    /// element.
    #[verifier::external_body]
    fn clone_inner(&self) -> (r: Scalar)
        ensures
            fr_val(r) == fr_val(*self),
    {
        Scalar { inner: self.inner }
    }

    /// Relies on `PartialEq` for `ark_ff::Fp`: two field elements are equal
    /// exactly when their canonical representatives are.
    #[verifier::external_body]
    fn eq_inner(&self, other: &Scalar) -> (r: bool)
        ensures
            r == (fr_val(*self) == fr_val(*other)),
    {
        self.inner == other.inner
    }
}

impl Clone for Scalar {
    fn clone(&self) -> (r: Scalar)
        ensures
            fr_val(r) == fr_val(*self),
    {
        self.clone_inner()
    }
}

impl PartialEq for Scalar {
    fn eq(&self, other: &Scalar) -> (r: bool) {
        self.eq_inner(other)
    }
}

impl vstd::std_specs::cmp::PartialEqSpecImpl for Scalar {
    open spec fn obeys_eq_spec() -> bool {
        true
    }

    open spec fn eq_spec(&self, other: &Scalar) -> bool {
        fr_val(*self) == fr_val(*other)
    }
}

} // verus!
