use ff::{Field, PrimeField};
use group::{Curve, Group};
use halo2curves::bn256::{Fq2, Fr, G2Affine, G1, G2};
use kzg_accumulator::field::Scalar;
use kzg_accumulator::msm::{DualMSM, VerifierParams};
use kzg_accumulator::strategy::{AccumulatorStrategy, Error, GuardKZG, SingleStrategy};

const SECRET: u64 = 0x1234_5678;

fn sc(x: Fr) -> Scalar {
    Scalar { repr: x.to_repr().into() }
}

fn params() -> VerifierParams {
    VerifierParams {
        g2: G2::generator().to_affine(),
        s_g2: (G2::generator() * Fr::from(SECRET)).to_affine(),
    }
}

/// Folds in the claim `e(a*P, [s]_2) = e(a*s*P, [1]_2)` for `P = k*G`,
/// with the right side off by `corrupt`.
fn fold_claim(acc: &mut DualMSM, a: u64, k: u64, corrupt: u64) {
    let p = G1::generator() * Fr::from(k);
    acc.left.append_term(sc(Fr::from(a)), p);
    acc.right
        .append_term(sc(Fr::from(a) * Fr::from(SECRET) + Fr::from(corrupt)), p);
}

fn valid_accumulator(params: &VerifierParams) -> DualMSM {
    let mut acc = DualMSM::new(params);
    fold_claim(&mut acc, 3, 5, 0);
    acc
}

#[test]
fn empty_accumulator_holds() {
    let params = params();
    assert!(DualMSM::new(&params).check());
}

#[test]
fn valid_accumulator_holds() {
    let params = params();
    assert!(valid_accumulator(&params).check());
}

#[test]
fn corrupted_left_scalar_fails() {
    let params = params();
    let mut acc = valid_accumulator(&params);
    let p = acc.left.bases()[0];
    let mut left = kzg_accumulator::msm::MSMKZG::new();
    left.append_term(sc(Fr::from(4)), p);
    acc.left = left;
    assert!(!acc.check());
}

#[test]
fn corrupted_right_scalar_fails() {
    let params = params();
    let mut acc = DualMSM::new(&params);
    fold_claim(&mut acc, 3, 5, 1);
    assert!(!acc.check());
}

#[test]
fn scaled_accumulator_still_holds() {
    let params = params();
    let mut acc = valid_accumulator(&params);
    acc.scale(sc(Fr::from(99)));
    assert!(acc.check());
}

#[test]
fn merged_accumulators_hold() {
    let params = params();
    let mut acc = valid_accumulator(&params);
    let mut other = DualMSM::new(&params);
    fold_claim(&mut other, 8, 13, 0);
    acc.add_msm(other);
    assert_eq!(acc.left.scalars().len(), 2);
    assert_eq!(acc.right.scalars().len(), 2);
    assert!(acc.check());
}

#[test]
fn batch_of_two_valid_proofs_passes() {
    let params = params();
    let strategy = AccumulatorStrategy::new(&params);
    let strategy = strategy
        .process(|mut acc| {
            fold_claim(&mut acc, 3, 5, 0);
            Ok(GuardKZG::new(acc))
        })
        .unwrap();
    let strategy = strategy
        .process(|mut acc| {
            fold_claim(&mut acc, 8, 13, 0);
            Ok(GuardKZG::new(acc))
        })
        .unwrap();
    assert_eq!(strategy.msm_accumulator.left.scalars().len(), 2);
    assert!(strategy.finalize());
}

#[test]
fn batch_with_corrupted_proof_fails() {
    let params = params();
    for _ in 0..5 {
        let strategy = AccumulatorStrategy::new(&params)
            .process(|mut acc| {
                fold_claim(&mut acc, 3, 5, 0);
                Ok(GuardKZG::new(acc))
            })
            .unwrap()
            .process(|mut acc| {
                fold_claim(&mut acc, 8, 13, 1);
                Ok(GuardKZG::new(acc))
            })
            .unwrap();
        assert!(!strategy.finalize());
    }
}

#[test]
fn batch_randomizes_before_folding() {
    let params = params();
    let mut acc = DualMSM::new(&params);
    fold_claim(&mut acc, 1, 1, 0);
    let before = acc.left.scalars();
    let strategy = AccumulatorStrategy::with(acc)
        .process(|acc| {
            assert_eq!(acc.left.bases().len(), 1);
            assert_ne!(acc.left.scalars(), before);
            Ok(GuardKZG::new(acc))
        })
        .unwrap();
    assert!(strategy.finalize());
}

#[test]
fn batch_propagates_transcript_error() {
    let params = params();
    let r = AccumulatorStrategy::new(&params).process(|_acc| Err(Error::Transcript));
    assert!(matches!(r, Err(Error::Transcript)));
}

#[test]
fn single_valid_proof_passes() {
    let params = params();
    let r = SingleStrategy::new(&params).process(|mut acc| {
        fold_claim(&mut acc, 3, 5, 0);
        Ok(GuardKZG::new(acc))
    });
    assert_eq!(r, Ok(()));
}

#[test]
fn single_corrupted_proof_fails() {
    let params = params();
    let r = SingleStrategy::new(&params).process(|mut acc| {
        fold_claim(&mut acc, 3, 5, 1);
        Ok(GuardKZG::new(acc))
    });
    assert_eq!(r, Err(Error::ConstraintSystemFailure));
}

#[test]
fn single_propagates_transcript_error() {
    let params = params();
    let r = SingleStrategy::new(&params).process(|_acc| Err(Error::Transcript));
    assert_eq!(r, Err(Error::Transcript));
}

#[test]
fn invalid_reference_point_is_rejected() {
    let mut params = params();
    params.s_g2 = G2Affine {
        x: Fq2::zero(),
        y: Fq2::one(),
    };
    assert!(!DualMSM::new(&params).check());
    assert!(!valid_accumulator(&params).check());
}

#[test]
fn batch_process_with_factor_scales_first() {
    let params = params();
    let mut acc = DualMSM::new(&params);
    fold_claim(&mut acc, 1, 1, 0);
    let strategy = AccumulatorStrategy::with(acc)
        .process_with_factor(sc(Fr::from(2)), |acc| {
            assert_eq!(acc.left.scalars(), vec![sc(Fr::from(2))]);
            assert_eq!(acc.right.scalars(), vec![sc(Fr::from(2 * SECRET))]);
            Ok(GuardKZG::new(acc))
        })
        .unwrap();
    assert!(strategy.finalize());
}
