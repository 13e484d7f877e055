//! The linear-form abstraction: a fixed public linear functional
//! `L(x) = a_0*x_0 + ... + a_(m-1)*x_(m-1)`, evaluated identically by
//! prover and verifier, together with two concrete forms.

use vstd::prelude::*;
use crate::field::{fr_order, fr_val, fr_vals, Scalar};
use crate::modular::{dot, lemma_dot_take_step, lemma_mod_add_both, lemma_mod_add_left};

verus! {

/// A run of `n` coefficients equal to one.
pub open spec fn ones(n: nat) -> Seq<nat> {
    Seq::new(n, |i: int| 1nat)
}

/// A fixed linear functional over vectors of scalars.
///
/// A form's mathematical content is its coefficient sequence `coeffs`;
/// `eval` takes a vector with exactly one entry per coefficient. The
/// declared `size` is one larger: the protocol reserves a slot, matching
/// the sizing of the recursive compressed variant that is future work.
/// `scale`, `add`, `split_in_half` and `pad` are combinators that only
/// that variant needs; the protocol here never calls them, and only their
/// shape is part of this contract.
pub trait LinearForm: Sized {
    /// The coefficients of the functional, as field values.
    spec fn coeffs(&self) -> Seq<nat>;

    /// The declared input-size contract: one more than the number of
    /// coefficients.
    fn size(&self) -> (n: usize)
        ensures
            n == self.coeffs().len() + 1,
    ;

    /// The evaluation `sum coeffs[i] * x[i]`, in the field.
    fn eval(&self, x: &Vec<Scalar>) -> (r: Scalar)
        requires
            x@.len() == self.coeffs().len(),
        ensures
            fr_val(r) == dot(self.coeffs(), fr_vals(x@)) % fr_order(),
            fr_val(r) < fr_order(),
    ;

    /// The form with every coefficient multiplied by a fixed scalar.
    fn scale(&self, scalar: &Scalar) -> (r: Self)
        ensures
            r.coeffs().len() == self.coeffs().len(),
    ;

    /// The pointwise sum of two forms of the same shape.
    fn add(&self, other: &Self) -> (r: Self)
        requires
            other.coeffs().len() == self.coeffs().len(),
        ensures
            r.coeffs().len() == self.coeffs().len(),
    ;

    /// The two halves of the coefficient sequence, in order.
    fn split_in_half(&self) -> (r: (Self, Self))
        ensures
            r.0.coeffs() + r.1.coeffs() == self.coeffs(),
    ;

    /// The form extended to declared size `new_size`.
    fn pad(&self, new_size: u32) -> (r: Self)
        requires
            self.coeffs().len() + 1 <= new_size,
        ensures
            r.coeffs().len() + 1 == new_size,
    ;
}

/// The sum-of-entries functional: every coefficient is one.
pub struct SumForm {
    size: usize,
}

impl SumForm {
    #[verifier::type_invariant]
    spec fn wf(self) -> bool {
        1 <= self.size
    }

    /// The sum form over vectors of `n` entries.
    pub fn new(n: usize) -> (r: SumForm)
        requires
            n < usize::MAX,
        ensures
            r.coeffs() == ones(n as nat),
    {
        SumForm { size: n + 1 }
    }
}

impl LinearForm for SumForm {
    closed spec fn coeffs(&self) -> Seq<nat> {
        ones((self.size - 1) as nat)
    }

    fn size(&self) -> (n: usize) {
        proof {
            use_type_invariant(self);
        }
        self.size
    }

    fn eval(&self, x: &Vec<Scalar>) -> (r: Scalar) {
        let ghost a = self.coeffs();
        let ghost v = fr_vals(x@);
        let mut acc = Scalar::zero();
        let mut i: usize = 0;
        while i < x.len()
            invariant
                i <= x@.len(),
                x@.len() == a.len(),
                a == self.coeffs(),
                v == fr_vals(x@),
                fr_val(acc) == dot(a.take(i as int), v.take(i as int)) % fr_order(),
            decreases x@.len() - i,
        {
            let next = acc.add(&x[i]);
            proof {
                lemma_dot_take_step(a, v, i as int);
                lemma_mod_add_left(dot(a.take(i as int), v.take(i as int)), v[i as int],
                    fr_order());
            }
            acc = next;
            i = i + 1;
        }
        proof {
            assert(a.take(x@.len() as int) =~= a);
            assert(v.take(x@.len() as int) =~= v);
        }
        acc
    }

    fn scale(&self, scalar: &Scalar) -> (r: Self) {
        proof {
            use_type_invariant(self);
        }
        SumForm { size: self.size }
    }

    fn add(&self, other: &Self) -> (r: Self) {
        proof {
            use_type_invariant(self);
        }
        SumForm { size: self.size }
    }

    fn split_in_half(&self) -> (r: (Self, Self))
        ensures
            r.0.coeffs().len() == self.coeffs().len() / 2,
    {
        proof {
            use_type_invariant(self);
        }
        let m = self.size - 1;
        let first = SumForm { size: m / 2 + 1 };
        let second = SumForm { size: (m - m / 2) + 1 };
        proof {
            assert(first.coeffs() + second.coeffs() =~= self.coeffs());
        }
        (first, second)
    }

    fn pad(&self, new_size: u32) -> (r: Self) {
        SumForm { size: new_size as usize }
    }
}

/// The fixed-coefficient dot-product functional.
pub struct DotProductForm {
    coefficients: Vec<Scalar>,
}

impl DotProductForm {
    #[verifier::type_invariant]
    spec fn wf(self) -> bool {
        self.coefficients@.len() < usize::MAX
    }

    /// The form with the given coefficients.
    pub fn new(coefficients: Vec<Scalar>) -> (r: DotProductForm)
        requires
            coefficients@.len() < usize::MAX,
        ensures
            r.coeffs() == fr_vals(coefficients@),
    {
        DotProductForm { coefficients }
    }
}

impl LinearForm for DotProductForm {
    closed spec fn coeffs(&self) -> Seq<nat> {
        fr_vals(self.coefficients@)
    }

    fn size(&self) -> (n: usize) {
        proof {
            use_type_invariant(self);
        }
        self.coefficients.len() + 1
    }

    fn eval(&self, x: &Vec<Scalar>) -> (r: Scalar) {
        let ghost a = self.coeffs();
        let ghost v = fr_vals(x@);
        let mut acc = Scalar::zero();
        let mut i: usize = 0;
        while i < x.len()
            invariant
                i <= x@.len(),
                x@.len() == a.len(),
                a == self.coeffs(),
                v == fr_vals(x@),
                fr_val(acc) == dot(a.take(i as int), v.take(i as int)) % fr_order(),
            decreases x@.len() - i,
        {
            let term = self.coefficients[i].mul(&x[i]);
            let next = acc.add(&term);
            proof {
                lemma_dot_take_step(a, v, i as int);
                lemma_mod_add_both(dot(a.take(i as int), v.take(i as int)),
                    (a[i as int] * v[i as int]) as nat, fr_order());
            }
            acc = next;
            i = i + 1;
        }
        proof {
            assert(a.take(x@.len() as int) =~= a);
            assert(v.take(x@.len() as int) =~= v);
        }
        acc
    }

    fn scale(&self, scalar: &Scalar) -> (r: Self)
        ensures
            forall|i: int|
                0 <= i < self.coeffs().len() ==> #[trigger] r.coeffs()[i] == (self.coeffs()[i]
                    * fr_val(*scalar)) % fr_order(),
    {
        proof {
            use_type_invariant(self);
        }
        let mut out: Vec<Scalar> = Vec::new();
        let mut i: usize = 0;
        while i < self.coefficients.len()
            invariant
                i <= self.coefficients@.len(),
                self.coefficients@.len() < usize::MAX,
                out@.len() == i,
                forall|j: int|
                    0 <= j < i ==> fr_val(out@[j]) == (fr_val(self.coefficients@[j]) * fr_val(
                        *scalar,
                    )) % fr_order(),
            decreases self.coefficients@.len() - i,
        {
            out.push(self.coefficients[i].mul(scalar));
            i = i + 1;
        }
        DotProductForm { coefficients: out }
    }

    fn add(&self, other: &Self) -> (r: Self)
        ensures
            forall|i: int|
                0 <= i < self.coeffs().len() ==> #[trigger] r.coeffs()[i] == (self.coeffs()[i]
                    + other.coeffs()[i]) % fr_order(),
    {
        proof {
            use_type_invariant(self);
        }
        let mut out: Vec<Scalar> = Vec::new();
        let mut i: usize = 0;
        while i < self.coefficients.len()
            invariant
                i <= self.coefficients@.len(),
                self.coefficients@.len() < usize::MAX,
                other.coefficients@.len() == self.coefficients@.len(),
                out@.len() == i,
                forall|j: int|
                    0 <= j < i ==> fr_val(out@[j]) == (fr_val(self.coefficients@[j]) + fr_val(
                        other.coefficients@[j],
                    )) % fr_order(),
            decreases self.coefficients@.len() - i,
        {
            out.push(self.coefficients[i].add(&other.coefficients[i]));
            i = i + 1;
        }
        DotProductForm { coefficients: out }
    }

    fn split_in_half(&self) -> (r: (Self, Self))
        ensures
            r.0.coeffs().len() == self.coeffs().len() / 2,
    {
        proof {
            use_type_invariant(self);
        }
        let half = self.coefficients.len() / 2;
        let mut first: Vec<Scalar> = Vec::new();
        let mut i: usize = 0;
        while i < half
            invariant
                i <= half,
                half <= self.coefficients@.len() < usize::MAX,
                first@.len() == i,
                forall|j: int|
                    0 <= j < i ==> fr_val(first@[j]) == fr_val(self.coefficients@[j]),
            decreases half - i,
        {
            first.push(self.coefficients[i].clone());
            i = i + 1;
        }
        let mut second: Vec<Scalar> = Vec::new();
        let mut j: usize = half;
        while j < self.coefficients.len()
            invariant
                half <= j <= self.coefficients@.len(),
                self.coefficients@.len() < usize::MAX,
                second@.len() == j - half,
                forall|k: int|
                    half <= k < j ==> fr_val(second@[k - half]) == fr_val(
                        self.coefficients@[k],
                    ),
            decreases self.coefficients@.len() - j,
        {
            second.push(self.coefficients[j].clone());
            j = j + 1;
        }
        let r0 = DotProductForm { coefficients: first };
        let r1 = DotProductForm { coefficients: second };
        proof {
            assert(r0.coeffs() + r1.coeffs() =~= self.coeffs());
        }
        (r0, r1)
    }

    fn pad(&self, new_size: u32) -> (r: Self)
        ensures
            forall|i: int|
                0 <= i < self.coeffs().len() ==> #[trigger] r.coeffs()[i] == self.coeffs()[i],
            forall|i: int|
                self.coeffs().len() <= i < new_size - 1 ==> #[trigger] r.coeffs()[i] == 0,
    {
        proof {
            use_type_invariant(self);
        }
        let target = (new_size - 1) as usize;
        let mut out: Vec<Scalar> = Vec::new();
        let mut i: usize = 0;
        while i < self.coefficients.len()
            invariant
                i <= self.coefficients@.len(),
                self.coefficients@.len() <= target < usize::MAX,
                out@.len() == i,
                forall|j: int|
                    0 <= j < i ==> fr_val(out@[j]) == fr_val(self.coefficients@[j]),
            decreases self.coefficients@.len() - i,
        {
            out.push(self.coefficients[i].clone());
            i = i + 1;
        }
        while out.len() < target
            invariant
                self.coefficients@.len() <= out@.len() <= target < usize::MAX,
                forall|j: int|
                    0 <= j < self.coefficients@.len() ==> fr_val(out@[j]) == fr_val(
                        self.coefficients@[j],
                    ),
                forall|j: int|
                    self.coefficients@.len() <= j < out@.len() ==> fr_val(out@[j]) == 0,
            decreases target - out@.len(),
        {
            out.push(Scalar::zero());
        }
        DotProductForm { coefficients: out }
    }
}

} // verus!
