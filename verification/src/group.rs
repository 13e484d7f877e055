//! Points of the protocol's curve group, seen through discrete logarithms.
//! secp256k1 has cofactor one, so the affine points form a single cyclic
//! group of prime order `fr_order()`; every point is uniquely the generator
//! raised to some exponent below the order, and the group operations act on
//! those exponents modulo the order.

use vstd::prelude::*;
use crate::field::{fr_order, fr_val, fr_vals, Scalar};
use crate::modular::dot;

verus! {

/// A point of the curve group. Held in the backend's affine
/// representation; its mathematical value is its discrete logarithm
/// `pt_log` with respect to the group's fixed generator.
#[verifier::external_body]
pub struct GroupElement {
    pub(crate) inner: ark_secp256k1::Affine,
}

/// The discrete logarithm of a point with respect to the curve's fixed
/// generator: the unique exponent below `fr_order()` that yields the
/// point. Well defined because the group is cyclic of prime order with
/// cofactor one; the identity has logarithm zero.
pub uninterp spec fn pt_log(p: GroupElement) -> nat;

/// The canonical compressed encoding of the point with the given discrete
/// logarithm, as `serialize_compressed` writes it.
pub uninterp spec fn pt_bytes(log: nat) -> Seq<u8>;

/// The discrete logarithms of a sequence of points.
pub open spec fn pt_logs(s: Seq<GroupElement>) -> Seq<nat> {
    Seq::new(s.len(), |i: int| pt_log(s[i]))
}

impl GroupElement {
    /// Relies on `ark_ec::AffineRepr::generator`: the fixed generator,
    /// against which `pt_log` is taken; its own logarithm is one.
    #[verifier::external_body]
    fn generator_inner() -> (r: GroupElement)
        ensures
            pt_log(r) == 1,
    {
        GroupElement { inner: <ark_secp256k1::Affine as ark_ec::AffineRepr>::generator() }
    }

    /// The group's fixed generator: the point with discrete logarithm one.
    pub fn generator() -> (r: GroupElement)
        ensures
            pt_log(r) == 1,
    {
        GroupElement::generator_inner()
    }

    /// Relies on `core::ops::Add` for curve points: adding points adds
    /// their discrete logarithms modulo the group order.
    #[verifier::external_body]
    pub fn add(&self, other: &GroupElement) -> (r: GroupElement)
        ensures
            pt_log(r) == (pt_log(*self) + pt_log(*other)) % fr_order(),
    {
        let sum = ark_ec::AffineRepr::into_group(self.inner) + other.inner;
        GroupElement { inner: ark_ec::CurveGroup::into_affine(sum) }
    }

    /// Relies on `core::ops::Mul<Fr>` for curve points: scalar
    /// multiplication multiplies the discrete logarithm by the scalar's
    /// representative, modulo the group order.
    #[verifier::external_body]
    pub fn mul(&self, s: &Scalar) -> (r: GroupElement)
        ensures
            pt_log(r) == (pt_log(*self) * fr_val(*s)) % fr_order(),
    {
        GroupElement { inner: ark_ec::CurveGroup::into_affine(self.inner * s.inner) }
    }

    /// Relies on `Copy` for affine points: a bitwise copy is the same
    /// point.
    #[verifier::external_body]
    fn clone_inner(&self) -> (r: GroupElement)
        ensures
            pt_log(r) == pt_log(*self),
    {
        GroupElement { inner: self.inner }
    }

    /// Relies on `PartialEq` for affine points: points are equal exactly
    /// when they are the same point, hence exactly when their discrete
    /// logarithms agree.
    #[verifier::external_body]
    fn eq_inner(&self, other: &GroupElement) -> (r: bool)
        ensures
            r == (pt_log(*self) == pt_log(*other)),
    {
        self.inner == other.inner
    }

    /// Relies on `ark_serialize::CanonicalSerialize::serialize_compressed`:
    /// the canonical compressed encoding of the point, a function of the
    /// point alone: the 32-byte base-field element and two flag bits, 33
    /// bytes in all. Writing into a byte vector always succeeds — the
    /// vector writer cannot fail, and the flags fit their byte — so the
    /// call always returns `Ok`.
    #[verifier::external_body]
    pub(crate) fn compress(&self) -> (r: Result<Vec<u8>, ark_serialize::SerializationError>)
        ensures
            r is Ok,
            r matches Ok(v) ==> v@ == pt_bytes(pt_log(*self)) && v@.len() == 33,
    {
        let mut out = Vec::new();
        match ark_serialize::CanonicalSerialize::serialize_compressed(&self.inner, &mut out) {
            Ok(()) => Ok(out),
            Err(e) => Err(e),
        }
    }
}

impl Clone for GroupElement {
    fn clone(&self) -> (r: GroupElement)
        ensures
            pt_log(r) == pt_log(*self),
    {
        self.clone_inner()
    }
}

impl PartialEq for GroupElement {
    fn eq(&self, other: &GroupElement) -> (r: bool) {
        self.eq_inner(other)
    }
}

impl vstd::std_specs::cmp::PartialEqSpecImpl for GroupElement {
    open spec fn obeys_eq_spec() -> bool {
        true
    }

    open spec fn eq_spec(&self, other: &GroupElement) -> bool {
        pt_log(*self) == pt_log(*other)
    }
}

/// Relies on `ark_ec::VariableBaseMSM::msm_unchecked`: the multi-scalar
/// multiplication `sum scalars[i] * bases[i]`, whose discrete logarithm is
/// the dot product of the bases' logarithms with the scalars'
/// representatives, modulo the group order.
#[verifier::external_body]
pub(crate) fn pt_msm(bases: &Vec<GroupElement>, scalars: &Vec<Scalar>) -> (r: GroupElement)
    requires
        bases@.len() == scalars@.len(),
    ensures
        pt_log(r) == dot(pt_logs(bases@), fr_vals(scalars@)) % fr_order(),
{
    let raw_bases: Vec<ark_secp256k1::Affine> = bases.iter().map(|g| g.inner).collect();
    let raw_scalars: Vec<ark_secp256k1::Fr> = scalars.iter().map(|s| s.inner).collect();
    let sum = <ark_secp256k1::Projective as ark_ec::VariableBaseMSM>::msm_unchecked(
        raw_bases.as_slice(),
        raw_scalars.as_slice(),
    );
    GroupElement { inner: ark_ec::CurveGroup::into_affine(sum) }
}

} // verus!
