use sigma_linear::field::Scalar;
use sigma_linear::group::GroupElement;
use sigma_linear::relation::{DotProductForm, LinearForm, SumForm};

fn scalars(vals: &[u64]) -> Vec<Scalar> {
    vals.iter().map(|v| Scalar::from_u64(*v)).collect()
}

#[test]
fn sum_form_evaluates_to_the_sum() {
    let form = SumForm::new(3);
    assert_eq!(form.size(), 4);
    let value = form.eval(&scalars(&[2, 5, 9]));
    assert!(value == Scalar::from_u64(16));
}

#[test]
fn sum_form_on_empty_vector_is_zero() {
    let form = SumForm::new(0);
    assert_eq!(form.size(), 1);
    let value = form.eval(&scalars(&[]));
    assert!(value == Scalar::zero());
}

#[test]
fn dot_form_evaluates_to_the_dot_product() {
    let form = DotProductForm::new(scalars(&[1, 2, 3]));
    assert_eq!(form.size(), 4);
    let value = form.eval(&scalars(&[4, 5, 6]));
    assert!(value == Scalar::from_u64(32));
}

#[test]
fn dot_form_scale_multiplies_every_coefficient() {
    let form = DotProductForm::new(scalars(&[1, 2]));
    let doubled = form.scale(&Scalar::from_u64(2));
    assert_eq!(doubled.size(), form.size());
    let value = doubled.eval(&scalars(&[3, 4]));
    assert!(value == Scalar::from_u64(22));
}

#[test]
fn dot_form_add_sums_pointwise() {
    let a = DotProductForm::new(scalars(&[1, 2]));
    let b = DotProductForm::new(scalars(&[10, 20]));
    let sum = a.add(&b);
    let value = sum.eval(&scalars(&[1, 1]));
    assert!(value == Scalar::from_u64(33));
}

#[test]
fn dot_form_split_in_half_keeps_both_halves() {
    let form = DotProductForm::new(scalars(&[1, 2, 3, 4]));
    let (lo, hi) = form.split_in_half();
    assert_eq!(lo.size(), 3);
    assert_eq!(hi.size(), 3);
    assert!(lo.eval(&scalars(&[1, 1])) == Scalar::from_u64(3));
    assert!(hi.eval(&scalars(&[1, 1])) == Scalar::from_u64(7));
}

#[test]
fn dot_form_pad_appends_zero_coefficients() {
    let form = DotProductForm::new(scalars(&[5, 6]));
    let padded = form.pad(8);
    assert_eq!(padded.size(), 8);
    let value = padded.eval(&scalars(&[1, 1, 9, 9, 9, 9, 9]));
    assert!(value == Scalar::from_u64(11));
}

#[test]
fn sum_form_combinators_keep_declared_sizes() {
    let form = SumForm::new(7);
    assert_eq!(form.scale(&Scalar::from_u64(3)).size(), 8);
    assert_eq!(form.add(&SumForm::new(7)).size(), 8);
    let (lo, hi) = SumForm::new(4).split_in_half();
    assert_eq!(lo.size() + hi.size(), 6);
    assert_eq!(form.pad(16).size(), 16);
}

#[test]
fn scalar_arithmetic_matches_integers() {
    let three = Scalar::from_u64(3);
    let four = Scalar::from_u64(4);
    assert!(three.add(&four) == Scalar::from_u64(7));
    assert!(three.mul(&four) == Scalar::from_u64(12));
    assert!(three.add(&Scalar::zero()) == three);
    assert!(three.clone() == three);
    assert!(three != four);
}

#[test]
fn group_arithmetic_matches_exponents() {
    let gen = GroupElement::generator();
    let two = Scalar::from_u64(2);
    let three = Scalar::from_u64(3);
    let five = Scalar::from_u64(5);
    assert!(gen.mul(&two).add(&gen.mul(&three)) == gen.mul(&five));
    assert!(gen.mul(&two) != gen.mul(&three));
    assert!(gen.clone() == gen);
}
