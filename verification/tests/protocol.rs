use ark_std::rand::rngs::StdRng;
use ark_std::rand::SeedableRng;
use sigma_linear::error::SigmaError;
use sigma_linear::field::Scalar;
use sigma_linear::group::GroupElement;
use sigma_linear::protocol::{pedersen_commit, Proof, Witness};
use sigma_linear::relation::{DotProductForm, LinearForm, SumForm};

fn rng_from(seed: u64) -> StdRng {
    StdRng::seed_from_u64(seed)
}

fn random_generators(n: usize, rng: &mut StdRng) -> Vec<GroupElement> {
    let base = GroupElement::generator();
    (0..n).map(|_| base.mul(&Scalar::random(rng))).collect()
}

fn scalars(vals: &[u64]) -> Vec<Scalar> {
    vals.iter().map(|v| Scalar::from_u64(*v)).collect()
}

fn ok_proof(r: Result<Proof, SigmaError>) -> Proof {
    match r {
        Ok(p) => p,
        Err(_) => panic!("proving failed"),
    }
}

/// The worked example: three entries summing to sixteen.
#[test]
fn sum_form_example_accepts() {
    let mut rng = rng_from(1);
    let g = random_generators(3, &mut rng);
    let h = GroupElement::generator().mul(&Scalar::random(&mut rng));
    let k = GroupElement::generator().mul(&Scalar::random(&mut rng));
    let x = scalars(&[2, 5, 9]);
    let gamma = Scalar::from_u64(11);
    let commitment = pedersen_commit(&g, &h, &x, &gamma);
    let y = Scalar::from_u64(16);
    let linear_form = SumForm::new(3);
    let witness = Witness::new(x, gamma);
    let proof = ok_proof(witness.prove(&mut rng, &g, &h, &linear_form));
    assert!(matches!(proof.verify(&g, &h, &k, &linear_form, &commitment, &y), Ok(())));
}

#[test]
fn sum_form_example_rejects_wrong_evaluation() {
    let mut rng = rng_from(2);
    let g = random_generators(3, &mut rng);
    let h = GroupElement::generator().mul(&Scalar::random(&mut rng));
    let k = GroupElement::generator().mul(&Scalar::random(&mut rng));
    let x = scalars(&[2, 5, 9]);
    let gamma = Scalar::from_u64(11);
    let commitment = pedersen_commit(&g, &h, &x, &gamma);
    let wrong_y = Scalar::from_u64(17);
    let linear_form = SumForm::new(3);
    let witness = Witness::new(x, gamma);
    let proof = ok_proof(witness.prove(&mut rng, &g, &h, &linear_form));
    assert!(matches!(
        proof.verify(&g, &h, &k, &linear_form, &commitment, &wrong_y),
        Err(SigmaError::InvalidResponse)
    ));
}

/// Completeness over a random dot-product form and witness.
#[test]
fn dot_form_completeness() {
    let mut rng = rng_from(3);
    let n = 7usize;
    let g = random_generators(n, &mut rng);
    let h = GroupElement::generator().mul(&Scalar::random(&mut rng));
    let k = GroupElement::generator().mul(&Scalar::random(&mut rng));
    let coefficients: Vec<Scalar> = (0..n).map(|_| Scalar::random(&mut rng)).collect();
    let x: Vec<Scalar> = (0..n).map(|_| Scalar::random(&mut rng)).collect();
    let gamma = Scalar::random(&mut rng);
    let commitment = pedersen_commit(&g, &h, &x, &gamma);
    let linear_form = DotProductForm::new(coefficients);
    let y = linear_form.eval(&x);
    let witness = Witness::new(x, gamma);
    let proof = ok_proof(witness.prove(&mut rng, &g, &h, &linear_form));
    assert!(matches!(proof.verify(&g, &h, &k, &linear_form, &commitment, &y), Ok(())));
}

/// Boundary sizes that satisfy every length contract all round-trip.
#[test]
fn boundary_sizes_accept() {
    for n in [0usize, 1, 3, 7] {
        let mut rng = rng_from(10 + n as u64);
        let g = random_generators(n, &mut rng);
        let h = GroupElement::generator().mul(&Scalar::random(&mut rng));
        let k = GroupElement::generator().mul(&Scalar::random(&mut rng));
        let x: Vec<Scalar> = (0..n).map(|_| Scalar::random(&mut rng)).collect();
        let gamma = Scalar::random(&mut rng);
        let commitment = pedersen_commit(&g, &h, &x, &gamma);
        let linear_form = SumForm::new(n);
        let y = linear_form.eval(&x);
        let witness = Witness::new(x, gamma);
        let proof = ok_proof(witness.prove(&mut rng, &g, &h, &linear_form));
        assert!(matches!(proof.verify(&g, &h, &k, &linear_form, &commitment, &y), Ok(())));
    }
}

/// A generator count whose successor is not a power of two is rejected
/// before anything else is looked at.
#[test]
fn prove_rejects_generator_count() {
    for n in [4usize, 8] {
        let mut rng = rng_from(20 + n as u64);
        let g = random_generators(n, &mut rng);
        let h = GroupElement::generator();
        let x: Vec<Scalar> = (0..n).map(|_| Scalar::random(&mut rng)).collect();
        let witness = Witness::new(x, Scalar::from_u64(1));
        let linear_form = SumForm::new(n);
        assert!(matches!(
            witness.prove(&mut rng, &g, &h, &linear_form),
            Err(SigmaError::NotPowerOfTwo)
        ));
    }
}

/// A form whose declared size is not a power of two is rejected.
#[test]
fn prove_rejects_form_size_not_power_of_two() {
    let mut rng = rng_from(30);
    let g = random_generators(3, &mut rng);
    let h = GroupElement::generator();
    let x: Vec<Scalar> = (0..3).map(|_| Scalar::random(&mut rng)).collect();
    let witness = Witness::new(x, Scalar::from_u64(1));
    let linear_form = SumForm::new(4);
    assert!(matches!(
        witness.prove(&mut rng, &g, &h, &linear_form),
        Err(SigmaError::NotPowerOfTwo)
    ));
}

/// A witness shorter than the generator vector is rejected.
#[test]
fn prove_rejects_witness_length() {
    let mut rng = rng_from(31);
    let g = random_generators(3, &mut rng);
    let h = GroupElement::generator();
    let x: Vec<Scalar> = (0..2).map(|_| Scalar::random(&mut rng)).collect();
    let witness = Witness::new(x, Scalar::from_u64(1));
    let linear_form = SumForm::new(3);
    assert!(matches!(
        witness.prove(&mut rng, &g, &h, &linear_form),
        Err(SigmaError::VectorLenMismatch)
    ));
}

/// A form of valid size that does not match the generator count is
/// rejected, by prove and by verify.
#[test]
fn rejects_form_generator_mismatch() {
    let mut rng = rng_from(32);
    let g = random_generators(3, &mut rng);
    let h = GroupElement::generator();
    let k = GroupElement::generator();
    let x: Vec<Scalar> = (0..3).map(|_| Scalar::random(&mut rng)).collect();
    let gamma = Scalar::from_u64(1);
    let commitment = pedersen_commit(&g, &h, &x, &gamma);
    let witness = Witness::new(x, gamma);
    let good_form = SumForm::new(3);
    let wide_form = SumForm::new(7);
    assert!(matches!(
        witness.prove(&mut rng, &g, &h, &wide_form),
        Err(SigmaError::VectorLenMismatch)
    ));
    let proof = ok_proof(witness.prove(&mut rng, &g, &h, &good_form));
    let y = Scalar::from_u64(0);
    assert!(matches!(
        proof.verify(&g, &h, &k, &wide_form, &commitment, &y),
        Err(SigmaError::VectorLenMismatch)
    ));
}

/// Verify checks the response length against the generators.
#[test]
fn verify_rejects_response_length() {
    let mut rng = rng_from(33);
    let g = random_generators(3, &mut rng);
    let h = GroupElement::generator().mul(&Scalar::random(&mut rng));
    let k = GroupElement::generator();
    let x = scalars(&[2, 5, 9]);
    let gamma = Scalar::from_u64(4);
    let commitment = pedersen_commit(&g, &h, &x, &gamma);
    let linear_form = SumForm::new(3);
    let y = Scalar::from_u64(16);
    let witness = Witness::new(x, gamma);
    let proof = ok_proof(witness.prove(&mut rng, &g, &h, &linear_form));
    let mut short_z = proof.z.clone();
    short_z.pop();
    let truncated = Proof { t: proof.t.clone(), A_hat: proof.A_hat.clone(), z: short_z, phi: proof.phi.clone() };
    assert!(matches!(
        truncated.verify(&g, &h, &k, &linear_form, &commitment, &y),
        Err(SigmaError::VectorLenMismatch)
    ));
}

/// Identical randomness gives identical proofs; fresh randomness gives a
/// different first message, and both proofs verify.
#[test]
fn transcript_determinism() {
    let g = {
        let mut rng = rng_from(40);
        random_generators(3, &mut rng)
    };
    let h = GroupElement::generator().mul(&Scalar::from_u64(77));
    let k = GroupElement::generator();
    let x = scalars(&[2, 5, 9]);
    let gamma = Scalar::from_u64(6);
    let commitment = pedersen_commit(&g, &h, &x, &gamma);
    let linear_form = SumForm::new(3);
    let y = Scalar::from_u64(16);
    let witness = Witness::new(x, gamma);

    let mut rng_a = rng_from(41);
    let mut rng_b = rng_from(41);
    let p1 = ok_proof(witness.prove(&mut rng_a, &g, &h, &linear_form));
    let p2 = ok_proof(witness.prove(&mut rng_b, &g, &h, &linear_form));
    assert!(p1.t == p2.t);
    assert!(p1.A_hat == p2.A_hat);
    assert!(p1.z == p2.z);
    assert!(p1.phi == p2.phi);

    let mut rng_c = rng_from(42);
    let p3 = ok_proof(witness.prove(&mut rng_c, &g, &h, &linear_form));
    assert!(p1.A_hat != p3.A_hat);
    assert!(matches!(p1.verify(&g, &h, &k, &linear_form, &commitment, &y), Ok(())));
    assert!(matches!(p3.verify(&g, &h, &k, &linear_form, &commitment, &y), Ok(())));
}

/// The deterministic prover is a function of the blinding values alone.
#[test]
fn prove_with_blinding_is_deterministic() {
    let mut rng = rng_from(43);
    let g = random_generators(3, &mut rng);
    let h = GroupElement::generator().mul(&Scalar::random(&mut rng));
    let x = scalars(&[2, 5, 9]);
    let witness = Witness::new(x, Scalar::from_u64(6));
    let linear_form = SumForm::new(3);
    let blindings = scalars(&[13, 29, 31]);
    let rho = Scalar::from_u64(37);
    let p1 = ok_proof(witness.prove_with_blinding(&blindings, &rho, &g, &h, &linear_form));
    let p2 = ok_proof(witness.prove_with_blinding(&blindings, &rho, &g, &h, &linear_form));
    assert!(p1.t == p2.t);
    assert!(p1.A_hat == p2.A_hat);
    assert!(p1.z == p2.z);
    assert!(p1.phi == p2.phi);
}

/// Changing any single component of a valid proof is caught.
#[test]
fn tamper_sensitivity() {
    let mut rng = rng_from(50);
    let g = random_generators(3, &mut rng);
    let h = GroupElement::generator().mul(&Scalar::random(&mut rng));
    let k = GroupElement::generator();
    let x = scalars(&[2, 5, 9]);
    let gamma = Scalar::from_u64(23);
    let commitment = pedersen_commit(&g, &h, &x, &gamma);
    let linear_form = SumForm::new(3);
    let y = Scalar::from_u64(16);
    let witness = Witness::new(x, gamma);
    let proof = ok_proof(witness.prove(&mut rng, &g, &h, &linear_form));
    assert!(matches!(proof.verify(&g, &h, &k, &linear_form, &commitment, &y), Ok(())));

    let one = Scalar::from_u64(1);
    let bumped_t = Proof {
        t: proof.t.add(&one),
        A_hat: proof.A_hat.clone(),
        z: proof.z.clone(),
        phi: proof.phi.clone(),
    };
    assert!(matches!(
        bumped_t.verify(&g, &h, &k, &linear_form, &commitment, &y),
        Err(SigmaError::InvalidResponse)
    ));

    let bumped_a = Proof {
        t: proof.t.clone(),
        A_hat: proof.A_hat.add(&GroupElement::generator()),
        z: proof.z.clone(),
        phi: proof.phi.clone(),
    };
    assert!(matches!(
        bumped_a.verify(&g, &h, &k, &linear_form, &commitment, &y),
        Err(SigmaError::InvalidResponse)
    ));

    for i in 0..proof.z.len() {
        let mut z = proof.z.clone();
        let bumped = z[i].add(&one);
        z[i] = bumped;
        let bumped_z = Proof {
            t: proof.t.clone(),
            A_hat: proof.A_hat.clone(),
            z,
            phi: proof.phi.clone(),
        };
        assert!(matches!(
            bumped_z.verify(&g, &h, &k, &linear_form, &commitment, &y),
            Err(SigmaError::InvalidResponse)
        ));
    }

    let bumped_phi = Proof {
        t: proof.t.clone(),
        A_hat: proof.A_hat.clone(),
        z: proof.z.clone(),
        phi: proof.phi.add(&one),
    };
    assert!(matches!(
        bumped_phi.verify(&g, &h, &k, &linear_form, &commitment, &y),
        Err(SigmaError::InvalidResponse)
    ));
}

/// A prover who claims a wrong evaluation is rejected across many
/// challenges: each fresh proof binds a fresh challenge, and none of
/// them satisfies the false statement.
#[test]
fn soundness_fuzz_wrong_statement() {
    let mut rng = rng_from(60);
    let g = random_generators(3, &mut rng);
    let h = GroupElement::generator().mul(&Scalar::random(&mut rng));
    let k = GroupElement::generator();
    let x = scalars(&[2, 5, 9]);
    let gamma = Scalar::from_u64(3);
    let commitment = pedersen_commit(&g, &h, &x, &gamma);
    let linear_form = SumForm::new(3);
    let wrong_y = Scalar::from_u64(99);
    let witness = Witness::new(x, gamma);
    for seed in 0..50u64 {
        let mut prover_rng = rng_from(100 + seed);
        let proof = ok_proof(witness.prove(&mut prover_rng, &g, &h, &linear_form));
        assert!(matches!(
            proof.verify(&g, &h, &k, &linear_form, &commitment, &wrong_y),
            Err(SigmaError::InvalidResponse)
        ));
    }
}

/// The backend's serialization failure is wrapped, not swallowed.
#[test]
fn serialization_error_is_wrapped() {
    let e = ark_serialize::SerializationError::NotEnoughSpace;
    assert!(matches!(SigmaError::from(e), SigmaError::Serialization(_)));
}
