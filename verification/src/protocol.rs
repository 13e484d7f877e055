//! The protocol engine: proving knowledge of an opening `(x, gamma)` of a
//! Pedersen vector commitment `P = MSM(g, x) + h * gamma` together with
//! the value `y = L(x)` of a public linear form, made non-interactive by
//! deriving the challenge from a transcript of the first message.

use vstd::prelude::*;
use crate::error::SigmaError;
use crate::field::{fr_order, fr_val, fr_vals, Scalar};
use crate::group::{pt_bytes, pt_log, pt_logs, pt_msm, GroupElement};
use crate::modular::{
    check_pow2, dot, is_pow2, le_bytes, le_val, lemma_dot_masked, lemma_dot_update,
    lemma_le_bytes_len, lemma_mod_add_both, lemma_mod_add_left, lemma_mod_mul_left,
    lemma_mod_mul_right, lemma_mod_same_in_window, masked,
};
use crate::relation::LinearForm;
use crate::transcript::{fs_challenge, FsTranscript};

verus! {

/// The domain-separation label of this protocol's transcript.
pub open spec fn domain_sep() -> Seq<char> {
    "Fiat-Shamir transcript!"@
}

/// The absorb label of the first message's linear-form evaluation.
pub open spec fn t_label() -> Seq<char> {
    "first message, the linear form eval t"@
}

/// The absorb label of the first message's commitment.
pub open spec fn a_hat_label() -> Seq<char> {
    "first message, the msm eval A_hat"@
}

/// The derive label of the challenge.
pub open spec fn c0_label() -> Seq<char> {
    "c0"@
}

/// The transcript history after absorbing the first message `(t, A_hat)`:
/// the domain label, then `t`'s 32-byte little-endian encoding, then
/// `A_hat`'s compressed encoding, under their fixed labels.
pub open spec fn first_message_history(t: nat, a_hat: nat) -> Seq<(bool, Seq<char>, Seq<u8>)> {
    seq![
        (false, domain_sep(), Seq::<u8>::empty()),
        (false, t_label(), le_bytes(t, 32)),
        (false, a_hat_label(), pt_bytes(a_hat)),
    ]
}

/// The challenge scalar bound to the first message: the transcript's
/// output under label `c0`, read little-endian and reduced modulo the
/// field order.
pub open spec fn challenge0(t: nat, a_hat: nat) -> nat {
    le_val(fs_challenge(first_message_history(t, a_hat), c0_label())) % fr_order()
}

/// The validation both `prove` and `verify` run before any arithmetic,
/// first failure winning: `n` is the generator count, `form_size` the
/// linear form's declared size, and `vlen` the length of the secret
/// vector (proving) or of the response vector (verifying).
pub open spec fn size_error(n: nat, form_size: nat, vlen: nat) -> Option<SigmaError> {
    if !is_pow2(n + 1) {
        Option::Some(SigmaError::NotPowerOfTwo)
    } else if !is_pow2(form_size) {
        Option::Some(SigmaError::NotPowerOfTwo)
    } else if vlen != n {
        Option::Some(SigmaError::VectorLenMismatch)
    } else if n + 1 != form_size {
        Option::Some(SigmaError::VectorLenMismatch)
    } else {
        Option::None
    }
}

/// The mathematical content of a proof: the representative of `t`, the
/// discrete logarithm of `A_hat`, the representatives of the response
/// vector `z`, and the representative of the masked blinding `phi`.
pub struct ProofModel {
    pub t: nat,
    pub a_hat: nat,
    pub z: Seq<nat>,
    pub phi: nat,
}

/// The proof an honest prover produces from witness `(xv, gamma)`,
/// blinding values `(bl, rho)`, form coefficients `coeffs` and generators
/// with logarithms `(g_logs, h_log)`: the first message evaluates the
/// form and the commitment on the blinding vector, and the response masks
/// the witness with the blinding under the derived challenge.
pub open spec fn honest_proof(
    xv: Seq<nat>,
    gamma: nat,
    coeffs: Seq<nat>,
    g_logs: Seq<nat>,
    h_log: nat,
    bl: Seq<nat>,
    rho: nat,
) -> ProofModel {
    let q = fr_order();
    let t = dot(coeffs, bl) % q;
    let a_hat = (dot(g_logs, bl) + h_log * rho) % q;
    let c0 = challenge0(t, a_hat);
    ProofModel { t, a_hat, z: masked(c0, xv, bl, q), phi: (c0 * gamma + rho) % q }
}

/// The verifier's two checks on a proof against the statement
/// `(P, y)`, with `p_log` the commitment's discrete logarithm: the
/// response must open the commitment raised to the challenge shifted by
/// `A_hat`, and the form's value on the response must equal the challenge
/// times `y` plus `t`.
pub open spec fn accepts(
    g_logs: Seq<nat>,
    h_log: nat,
    coeffs: Seq<nat>,
    p_log: nat,
    y: nat,
    pm: ProofModel,
) -> bool {
    let q = fr_order();
    let c0 = challenge0(pm.t, pm.a_hat);
    &&& (dot(g_logs, pm.z) + h_log * pm.phi) % q == (p_log * c0 + pm.a_hat) % q
    &&& dot(coeffs, pm.z) % q == (c0 * y + pm.t) % q
}

/// The Pedersen vector commitment `MSM(g, x) + h * gamma`: binding to
/// `x` and hiding it behind the blinding `gamma`. Prover and verifier
/// agree on it out of band as the public statement's commitment.
pub fn pedersen_commit(
    g: &Vec<GroupElement>,
    h: &GroupElement,
    x: &Vec<Scalar>,
    gamma: &Scalar,
) -> (r: GroupElement)
    requires
        g@.len() == x@.len(),
    ensures
        pt_log(r) == (dot(pt_logs(g@), fr_vals(x@)) + pt_log(*h) * fr_val(*gamma)) % fr_order(),
{
    let c = pt_msm(g, x);
    let hg = h.mul(gamma);
    let r = c.add(&hg);
    proof {
        lemma_mod_add_both(
            dot(pt_logs(g@), fr_vals(x@)),
            pt_log(*h) * fr_val(*gamma),
            fr_order(),
        );
    }
    r
}

/// Completeness: an honest proof for a true statement is always
/// accepted. For any witness, form coefficients, generators and blinding
/// values of matching lengths, with the commitment being
/// `MSM(g, x) + h * gamma` and the claimed evaluation being the form's
/// value on `x`, the proof built by the proving equations passes both of
/// the verifier's checks.
pub proof fn lemma_completeness(
    xv: Seq<nat>,
    gamma: nat,
    coeffs: Seq<nat>,
    g_logs: Seq<nat>,
    h_log: nat,
    bl: Seq<nat>,
    rho: nat,
)
    requires
        g_logs.len() == xv.len(),
        bl.len() == xv.len(),
        coeffs.len() == xv.len(),
    ensures
        accepts(
            g_logs,
            h_log,
            coeffs,
            (dot(g_logs, xv) + h_log * gamma) % fr_order(),
            dot(coeffs, xv) % fr_order(),
            honest_proof(xv, gamma, coeffs, g_logs, h_log, bl, rho),
        ),
{
    let q = fr_order();
    let pm = honest_proof(xv, gamma, coeffs, g_logs, h_log, bl, rho);
    let c0 = challenge0(pm.t, pm.a_hat);
    let dcx = dot(coeffs, xv);
    let dcb = dot(coeffs, bl);
    let dgx = dot(g_logs, xv);
    let dgb = dot(g_logs, bl);

    assert(pm.z == masked(c0, xv, bl, q));
    lemma_dot_masked(coeffs, xv, bl, c0, q);
    lemma_dot_masked(g_logs, xv, bl, c0, q);

    // Scalar relation: the form's value on the response equals the
    // challenge times the claimed evaluation, plus t.
    assert((c0 * (dcx % q) + dcb % q) % q == (c0 * dcx + dcb) % q) by {
        lemma_mod_add_left(dcb, c0 * (dcx % q), q);
        lemma_mod_add_left(c0 * (dcx % q), dcb, q);
        lemma_mod_mul_right(c0, dcx, q);
        lemma_mod_add_left(c0 * dcx, dcb, q);
    }

    // Group relation, left side: the response opens to the masked
    // combination of both commitments.
    let ee = c0 * gamma + rho;
    let dz = dot(g_logs, pm.z);
    assert((dz + h_log * (ee % q)) % q == (c0 * dgx + dgb + h_log * ee) % q) by {
        lemma_mod_add_left(h_log * (ee % q), dz, q);
        lemma_mod_mul_right(h_log, ee, q);
        lemma_mod_add_left(h_log * ee, dz, q);
        // now (dz + h_log * (ee % q)) % q == (dz + h_log * ee) % q
        lemma_mod_add_left(dz, h_log * ee, q);
        lemma_mod_add_left(c0 * dgx + dgb, h_log * ee, q);
        // dz % q == (c0 * dgx + dgb) % q from the masking lemma
    }

    // Group relation, right side: the commitment raised to the
    // challenge, shifted by A_hat.
    let bb = dgx + h_log * gamma;
    let cc = dgb + h_log * rho;
    assert(((bb % q) * c0 + cc % q) % q == (bb * c0 + cc) % q) by {
        lemma_mod_add_left(cc, (bb % q) * c0, q);
        lemma_mod_add_left((bb % q) * c0, cc, q);
        lemma_mod_mul_left(bb, c0, q);
        lemma_mod_add_left(bb * c0, cc, q);
    }

    // Both sides reduce to the same polynomial in the inputs.
    assert(c0 * dgx + dgb + h_log * ee == bb * c0 + cc) by (nonlinear_arith)
        requires
            ee == c0 * gamma + rho,
            bb == dgx + h_log * gamma,
            cc == dgb + h_log * rho,
    ;
}

/// Tamper sensitivity of the response vector, at a unit coefficient: if
/// the verifier accepts a proof, then a proof identical except in one
/// response entry, at a position where the form's coefficient is one, is
/// rejected — the form's value on the response moves away from the
/// challenge relation. The entries are compared as field values: both
/// below the order and distinct.
pub proof fn lemma_tamper_response_entry(
    g_logs: Seq<nat>,
    h_log: nat,
    coeffs: Seq<nat>,
    p_log: nat,
    y: nat,
    pm: ProofModel,
    j: int,
    v: nat,
)
    requires
        accepts(g_logs, h_log, coeffs, p_log, y, pm),
        0 <= j < pm.z.len(),
        coeffs.len() == pm.z.len(),
        coeffs[j] == 1,
        pm.z[j] < fr_order(),
        v < fr_order(),
        v != pm.z[j],
    ensures
        !accepts(
            g_logs,
            h_log,
            coeffs,
            p_log,
            y,
            ProofModel { t: pm.t, a_hat: pm.a_hat, z: pm.z.update(j, v), phi: pm.phi },
        ),
{
    let q = fr_order();
    let pm2 = ProofModel { t: pm.t, a_hat: pm.a_hat, z: pm.z.update(j, v), phi: pm.phi };
    let c0 = challenge0(pm.t, pm.a_hat);
    let d1 = dot(coeffs, pm.z);
    let d2 = dot(coeffs, pm2.z);
    lemma_dot_update(coeffs, pm.z, j, v);
    assert(d2 + pm.z[j] == d1 + v);
    if d2 % q == (c0 * y + pm.t) % q {
        assert(d1 % q == d2 % q);
        lemma_mod_same_in_window(d1, d2, q);
    }
}

/// The prover's secret: the committed vector and its blinding scalar.
/// It exists only to produce proofs and is never serialized.
pub struct Witness {
    x: Vec<Scalar>,
    gamma: Scalar,
}

/// A proof: the first message `(t, A_hat)` and the response `(z, phi)`.
/// This is the only data exchanged at protocol time; it is fully public.
#[allow(non_snake_case)]
pub struct Proof {
    pub t: Scalar,
    pub A_hat: GroupElement,
    pub z: Vec<Scalar>,
    pub phi: Scalar,
}

impl Proof {
    /// The mathematical content of this proof.
    pub open spec fn model(&self) -> ProofModel {
        ProofModel {
            t: fr_val(self.t),
            a_hat: pt_log(self.A_hat),
            z: fr_vals(self.z@),
            phi: fr_val(self.phi),
        }
    }
}

impl Proof {
    /// Checks this proof against public generators `g`, `h`, `k` (with
    /// `k` reserved for the compressed variant), the linear form, the
    /// commitment `P` and the claimed evaluation `y`.
    ///
    /// The sizes are validated first, exactly as in `prove`, with the
    /// response standing in for the secret vector. After that the
    /// challenge is re-derived from the proof's own first message, and
    /// the result is `Ok` exactly when both of the verifier's checks
    /// hold, `Err(InvalidResponse)` otherwise; `Err(Serialization(_))`
    /// only if the backend failed to encode `A_hat`.
    #[allow(non_snake_case)]
    pub fn verify<L: LinearForm>(
        &self,
        g: &Vec<GroupElement>,
        h: &GroupElement,
        k: &GroupElement,
        linear_form: &L,
        P: &GroupElement,
        y: &Scalar,
    ) -> (r: Result<(), SigmaError>)
        requires
            g@.len() < usize::MAX,
        ensures
            match size_error(
                g@.len() as nat,
                linear_form.coeffs().len() + 1,
                self.z@.len() as nat,
            ) {
                Option::Some(e) => r == Err::<(), SigmaError>(e),
                Option::None => {
                    let ok = accepts(
                        pt_logs(g@),
                        pt_log(*h),
                        linear_form.coeffs(),
                        pt_log(*P),
                        fr_val(*y),
                        self.model(),
                    );
                    &&& (r == Ok::<(), SigmaError>(()) <==> ok)
                    &&& (!ok ==> r == Err::<(), SigmaError>(SigmaError::InvalidResponse))
                },
            },
    {
        let n = g.len();
        if !check_pow2(n + 1) {
            return Err(SigmaError::NotPowerOfTwo);
        }
        if !check_pow2(linear_form.size()) {
            return Err(SigmaError::NotPowerOfTwo);
        }
        if n != self.z.len() {
            return Err(SigmaError::VectorLenMismatch);
        }
        if n + 1 != linear_form.size() {
            return Err(SigmaError::VectorLenMismatch);
        }
        let ghost q = fr_order();

        let t_bytes = self.t.to_le_bytes();
        let a_bytes = match self.A_hat.compress() {
            Ok(v) => v,
            Err(e) => {
                return Err(SigmaError::Serialization(e));
            },
        };
        proof {
            reveal_strlit("Fiat-Shamir transcript!");
            lemma_le_bytes_len(fr_val(self.t), 32);
        }
        let mut transcript = FsTranscript::new("Fiat-Shamir transcript!");
        transcript.append("first message, the linear form eval t", &t_bytes);
        transcript.append("first message, the msm eval A_hat", &a_bytes);
        proof {
            assert(transcript.history() =~= first_message_history(
                fr_val(self.t),
                pt_log(self.A_hat),
            ));
        }
        let c0_bytes = transcript.challenge64("c0");
        let c0 = Scalar::from_le_bytes_mod_order(&c0_bytes);
        proof {
            assert(fr_val(c0) == challenge0(fr_val(self.t), pt_log(self.A_hat)));
        }

        let hp = h.mul(&self.phi);
        let msm_part = pt_msm(g, &self.z);
        let lhs1 = msm_part.add(&hp);
        let pc = P.mul(&c0);
        let rhs1 = pc.add(&self.A_hat);
        let lhs2 = linear_form.eval(&self.z);
        let cy = c0.mul(y);
        let rhs2 = cy.add(&self.t);
        proof {
            lemma_mod_add_both(
                dot(pt_logs(g@), fr_vals(self.z@)),
                (pt_log(*h) * fr_val(self.phi)) as nat,
                q,
            );
            lemma_mod_add_left((pt_log(*P) * fr_val(c0)) as nat, pt_log(self.A_hat), q);
            lemma_mod_add_left((fr_val(c0) * fr_val(*y)) as nat, fr_val(self.t), q);
        }
        if lhs1 == rhs1 && lhs2 == rhs2 {
            Ok(())
        } else {
            Err(SigmaError::InvalidResponse)
        }
    }
}

impl Witness {
    /// The representatives of the secret vector.
    pub closed spec fn x_vals(&self) -> Seq<nat> {
        fr_vals(self.x@)
    }

    /// The representative of the blinding scalar.
    pub closed spec fn gamma_val(&self) -> nat {
        fr_val(self.gamma)
    }

    /// A witness from its secret vector and blinding scalar.
    pub fn new(x: Vec<Scalar>, gamma: Scalar) -> (r: Witness)
        ensures
            r.x_vals() == fr_vals(x@),
            r.gamma_val() == fr_val(gamma),
    {
        Witness { x, gamma }
    }

    /// Produces the proof determined by the given blinding values: the
    /// first message `(t, A_hat)` evaluates the form and the commitment
    /// on the blinding vector, the challenge is derived from the
    /// transcript of that message, and the response masks the witness.
    ///
    /// The result is a function of the arguments alone: calling it twice
    /// with the same blinding values yields the same proof. `prove` draws
    /// the blinding values freshly and delegates here.
    pub fn prove_with_blinding<L: LinearForm>(
        &self,
        blindings: &Vec<Scalar>,
        rho: &Scalar,
        g: &Vec<GroupElement>,
        h: &GroupElement,
        linear_form: &L,
    ) -> (r: Result<Proof, SigmaError>)
        requires
            g@.len() < usize::MAX,
            blindings@.len() == g@.len(),
        ensures
            match size_error(
                g@.len() as nat,
                linear_form.coeffs().len() + 1,
                self.x_vals().len(),
            ) {
                Option::Some(e) => r == Err::<Proof, SigmaError>(e),
                Option::None => r matches Ok(p) && p.model() == honest_proof(
                    self.x_vals(),
                    self.gamma_val(),
                    linear_form.coeffs(),
                    pt_logs(g@),
                    pt_log(*h),
                    fr_vals(blindings@),
                    fr_val(*rho),
                ),
            },
    {
        let n = g.len();
        if !check_pow2(n + 1) {
            return Err(SigmaError::NotPowerOfTwo);
        }
        if !check_pow2(linear_form.size()) {
            return Err(SigmaError::NotPowerOfTwo);
        }
        if n != self.x.len() {
            return Err(SigmaError::VectorLenMismatch);
        }
        if n + 1 != linear_form.size() {
            return Err(SigmaError::VectorLenMismatch);
        }
        let ghost q = fr_order();
        let ghost pm = honest_proof(
            self.x_vals(),
            self.gamma_val(),
            linear_form.coeffs(),
            pt_logs(g@),
            pt_log(*h),
            fr_vals(blindings@),
            fr_val(*rho),
        );

        let t = linear_form.eval(blindings);
        let msm_part = pt_msm(g, blindings);
        let h_rho = h.mul(rho);
        let a_hat = msm_part.add(&h_rho);
        proof {
            lemma_mod_add_both(
                dot(pt_logs(g@), fr_vals(blindings@)),
                (pt_log(*h) * fr_val(*rho)) as nat,
                q,
            );
            assert(pt_log(a_hat) == pm.a_hat);
        }

        let t_bytes = t.to_le_bytes();
        let a_bytes = match a_hat.compress() {
            Ok(v) => v,
            Err(e) => {
                return Err(SigmaError::Serialization(e));
            },
        };
        proof {
            reveal_strlit("Fiat-Shamir transcript!");
            lemma_le_bytes_len(fr_val(t), 32);
        }
        let mut transcript = FsTranscript::new("Fiat-Shamir transcript!");
        transcript.append("first message, the linear form eval t", &t_bytes);
        transcript.append("first message, the msm eval A_hat", &a_bytes);
        proof {
            assert(transcript.history() =~= first_message_history(fr_val(t), pt_log(a_hat)));
        }
        let c0_bytes = transcript.challenge64("c0");
        let c0 = Scalar::from_le_bytes_mod_order(&c0_bytes);
        proof {
            assert(fr_val(c0) == challenge0(pm.t, pm.a_hat));
        }
        // The second challenge is derived but unused by this direct
        // protocol; deriving it keeps the transcript compatible with the
        // compressed variant, which needs two independent challenges.
        let c1_bytes = transcript.challenge64("c1");
        let _c1 = Scalar::from_le_bytes_mod_order(&c1_bytes);

        let mut z: Vec<Scalar> = Vec::new();
        let mut i: usize = 0;
        while i < n
            invariant
                i <= n,
                n == g@.len(),
                n == self.x@.len(),
                blindings@.len() == n,
                z@.len() == i,
                forall|j: int|
                    0 <= j < i ==> fr_val(z@[j]) == (fr_val(c0) * fr_val(self.x@[j]) + fr_val(
                        blindings@[j],
                    )) % fr_order(),
            decreases n - i,
        {
            let masked_entry = c0.mul(&self.x[i]).add(&blindings[i]);
            proof {
                lemma_mod_add_left(
                    (fr_val(c0) * fr_val(self.x@[i as int])) as nat,
                    fr_val(blindings@[i as int]),
                    fr_order(),
                );
            }
            z.push(masked_entry);
            i = i + 1;
        }
        let phi_mul = c0.mul(&self.gamma);
        let phi = phi_mul.add(rho);
        proof {
            lemma_mod_add_left(
                (fr_val(c0) * fr_val(self.gamma)) as nat,
                fr_val(*rho),
                q,
            );
            assert(fr_vals(z@) =~= pm.z);
        }
        Ok(Proof { t, A_hat: a_hat, z, phi })
    }

    /// Runs the sigma protocol's proving algorithm: validates the sizes,
    /// draws a fresh blinding scalar and blinding vector from `rng`, and
    /// produces the proof they determine. On valid sizes the result is an
    /// honest proof for some blinding values; each size violation yields
    /// its error, first failure winning.
    pub fn prove<L: LinearForm>(
        &self,
        rng: &mut ark_std::rand::rngs::StdRng,
        g: &Vec<GroupElement>,
        h: &GroupElement,
        linear_form: &L,
    ) -> (r: Result<Proof, SigmaError>)
        requires
            g@.len() < usize::MAX,
        ensures
            match size_error(
                g@.len() as nat,
                linear_form.coeffs().len() + 1,
                self.x_vals().len(),
            ) {
                Option::Some(e) => r == Err::<Proof, SigmaError>(e),
                Option::None => r matches Ok(p) && exists|bl: Seq<nat>, rho: nat|
                    bl.len() == g@.len() && #[trigger] honest_proof(
                        self.x_vals(),
                        self.gamma_val(),
                        linear_form.coeffs(),
                        pt_logs(g@),
                        pt_log(*h),
                        bl,
                        rho,
                    ) == p.model(),
            },
    {
        let n = g.len();
        if !check_pow2(n + 1) {
            return Err(SigmaError::NotPowerOfTwo);
        }
        if !check_pow2(linear_form.size()) {
            return Err(SigmaError::NotPowerOfTwo);
        }
        if n != self.x.len() {
            return Err(SigmaError::VectorLenMismatch);
        }
        if n + 1 != linear_form.size() {
            return Err(SigmaError::VectorLenMismatch);
        }
        let rho = Scalar::random(rng);
        let mut blindings: Vec<Scalar> = Vec::new();
        let mut i: usize = 0;
        while i < n
            invariant
                i <= n,
                blindings@.len() == i,
            decreases n - i,
        {
            blindings.push(Scalar::random(rng));
            i = i + 1;
        }
        let r = self.prove_with_blinding(&blindings, &rho, g, h, linear_form);
        proof {
            match r {
                Ok(ref p) => {
                    assert(honest_proof(
                        self.x_vals(),
                        self.gamma_val(),
                        linear_form.coeffs(),
                        pt_logs(g@),
                        pt_log(*h),
                        fr_vals(blindings@),
                        fr_val(rho),
                    ) == p.model());
                },
                Err(_) => {},
            }
        }
        r
    }
}

} // verus!
