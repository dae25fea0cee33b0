use ff::{Field, PrimeField};
use group::prime::PrimeCurveAffine;
use group::{Curve, Group};
use halo2curves::bn256::{Fr, G1Affine, G1};
use kzg_accumulator::field::Scalar;
use kzg_accumulator::msm::{MSMKZG, PreMSM};

fn sc(x: Fr) -> Scalar {
    Scalar { repr: x.to_repr().into() }
}

fn fr(s: &Scalar) -> Fr {
    Fr::from_repr(s.repr.into()).unwrap()
}

fn pt(k: u64) -> G1 {
    G1::generator() * Fr::from(k)
}

fn msm_of(terms: &[(u64, u64)]) -> MSMKZG {
    let mut m = MSMKZG::new();
    for &(s, p) in terms {
        m.append_term(sc(Fr::from(s)), pt(p));
    }
    m
}

fn sum(points: &[G1Affine]) -> G1Affine {
    let mut acc = G1::identity();
    for p in points {
        acc += G1::from(*p);
    }
    acc.to_affine()
}

#[test]
fn new_is_empty() {
    let m = MSMKZG::new();
    assert!(m.scalars().is_empty());
    assert!(m.bases().is_empty());
    assert_eq!(m.eval(), G1Affine::identity());
    assert!(m.check());
}

#[test]
fn append_keeps_order() {
    let m = msm_of(&[(2, 3), (4, 5)]);
    assert_eq!(m.scalars(), vec![sc(Fr::from(2)), sc(Fr::from(4))]);
    assert_eq!(m.bases(), vec![pt(3), pt(5)]);
}

#[test]
fn eval_is_weighted_sum() {
    let m = msm_of(&[(2, 1), (3, 5)]);
    assert_eq!(m.eval(), pt(17).to_affine());
}

#[test]
fn check_detects_identity() {
    let mut m = MSMKZG::new();
    m.append_term(sc(Fr::ONE), pt(9));
    m.append_term(sc(-Fr::ONE), pt(9));
    assert!(m.check());
    m.append_term(sc(Fr::ONE), pt(1));
    assert!(!m.check());
}

#[test]
fn merge_evaluates_to_sum() {
    let a = msm_of(&[(2, 3), (4, 5)]);
    let b = msm_of(&[(7, 11)]);
    let mut m = a.clone();
    m.add_msm(&b);
    assert_eq!(m.scalars().len(), 3);
    assert_eq!(m.bases(), vec![pt(3), pt(5), pt(11)]);
    assert_eq!(m.eval(), sum(&[a.eval(), b.eval()]));
    assert_eq!(m.eval(), pt(2 * 3 + 4 * 5 + 7 * 11).to_affine());
}

#[test]
fn merge_order_does_not_matter() {
    let a = msm_of(&[(2, 3), (4, 5)]);
    let b = msm_of(&[(7, 11), (1, 1)]);
    let mut ab = a.clone();
    ab.add_msm(&b);
    let mut ba = b.clone();
    ba.add_msm(&a);
    assert_eq!(ab.eval(), ba.eval());
}

#[test]
fn scale_multiplies_value() {
    let a = msm_of(&[(2, 3), (4, 5)]);
    let c = Fr::from(6);
    let mut m = a.clone();
    m.scale(sc(c));
    assert_eq!(m.scalars(), vec![sc(Fr::from(12)), sc(Fr::from(24))]);
    assert_eq!(m.bases(), a.bases());
    assert_eq!(m.eval(), (G1::from(a.eval()) * c).to_affine());
}

#[test]
fn scale_reduces_modulo_order() {
    let mut m = MSMKZG::new();
    m.append_term(sc(-Fr::ONE), pt(1));
    m.scale(sc(-Fr::ONE));
    assert_eq!(m.scalars(), vec![sc(Fr::ONE)]);
}

#[test]
fn scale_empty_is_empty() {
    let mut m = MSMKZG::new();
    m.scale(sc(Fr::from(5)));
    assert!(m.scalars().is_empty());
}

#[test]
fn combine_with_base_weights_by_powers() {
    let mut m = msm_of(&[(1, 1), (1, 2), (1, 3)]);
    m.combine_with_base(sc(Fr::from(10)));
    assert_eq!(
        m.scalars(),
        vec![sc(Fr::from(100)), sc(Fr::from(10)), sc(Fr::from(1))]
    );
    assert_eq!(m.eval(), pt(100 + 20 + 3).to_affine());
}

#[test]
fn combine_with_base_one_keeps_value() {
    let a = msm_of(&[(2, 3), (4, 5), (6, 7)]);
    let mut m = a.clone();
    m.combine_with_base(sc(Fr::ONE));
    assert_eq!(m.scalars(), a.scalars());
    assert_eq!(m.eval(), a.eval());
}

#[test]
fn combine_with_base_two_terms() {
    let (s0, s1, b) = (Fr::from(3), Fr::from(5), Fr::from(7));
    let (p0, p1) = (pt(11), pt(13));
    let mut m = MSMKZG::new();
    m.append_term(sc(s0), p0);
    m.append_term(sc(s1), p1);
    m.combine_with_base(sc(b));
    assert_eq!(m.eval(), (p0 * (s0 * b) + p1 * s1).to_affine());
    assert_eq!(fr(&m.scalars()[0]), s0 * b);
    assert_eq!(fr(&m.scalars()[1]), s1);
}

#[test]
fn combine_with_base_empty() {
    let mut m = MSMKZG::new();
    m.combine_with_base(sc(Fr::from(3)));
    assert!(m.scalars().is_empty());
}

#[test]
fn flatten_keeps_every_term() {
    let parts = [
        msm_of(&[(1, 2), (3, 4)]),
        msm_of(&[]),
        msm_of(&[(5, 6), (7, 8), (9, 10)]),
    ];
    let mut pre = PreMSM::new();
    for p in parts.iter() {
        pre.add_msm(p.clone());
    }
    let flat = pre.normalize();
    assert_eq!(flat.scalars().len(), 5);
    assert_eq!(flat.bases(), vec![pt(2), pt(4), pt(6), pt(8), pt(10)]);
    let evals: Vec<G1Affine> = parts.iter().map(|p| p.eval()).collect();
    assert_eq!(flat.eval(), sum(&evals));
}

#[test]
fn flatten_empty() {
    let flat = PreMSM::new().normalize();
    assert!(flat.scalars().is_empty());
    assert!(flat.bases().is_empty());
}

#[test]
fn eval_accepts_identity_bases() {
    let mut m = MSMKZG::new();
    for i in 0..100u64 {
        let base = if i % 10 == 0 { G1::identity() } else { pt(1) };
        m.append_term(sc(Fr::from(2)), base);
    }
    assert_eq!(m.eval(), pt(180).to_affine());
}
