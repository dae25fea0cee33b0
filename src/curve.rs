//! The BN254 group types that the accumulators carry, and the group
//! computations they hand to `halo2curves`: a multiscalar multiplication, the
//! identity and validity tests, the negation in G2 and a two-term
//! multi-pairing check.

use ff::PrimeField;
use group::prime::PrimeCurveAffine;
use group::cofactor::CofactorGroup;
use group::{Curve, Group};
use halo2curves::bn256::{Bn256, Fr, G1Affine, G2Affine, G1, G2};
use halo2curves::CurveAffine;
use halo2curves::pairing::{MillerLoopResult, MultiMillerLoop};
use vstd::prelude::*;

use crate::field::Scalar;

verus! {

#[verifier::external_type_specification]
#[verifier::external_body]
pub struct ExG1(G1);

#[verifier::external_type_specification]
#[verifier::external_body]
pub struct ExG1Affine(G1Affine);

#[verifier::external_type_specification]
#[verifier::external_body]
pub struct ExG2Affine(G2Affine);

/// The field values of a sequence of scalars.
pub open spec fn scalar_values(s: Seq<Scalar>) -> Seq<int> {
    s.map_values(|x: Scalar| x.val())
}

/// Every scalar of the sequence is canonically encoded.
pub open spec fn all_wf(s: Seq<Scalar>) -> bool {
    forall|i: int| 0 <= i < s.len() ==> (#[trigger] s[i]).wf()
}

/// The affine point `sum_i scalars[i] * bases[i]`.
pub uninterp spec fn msm_of(scalars: Seq<int>, bases: Seq<G1>) -> G1Affine;

/// Whether an affine point is the identity of G1.
pub uninterp spec fn is_identity_of(p: G1Affine) -> bool;

/// The negation of a point of G2.
pub uninterp spec fn g2_neg_of(p: G2Affine) -> G2Affine;

/// Whether an affine point satisfies the equation of G1, or is its identity.
/// G1 has cofactor one, so these are the points of the group.
pub uninterp spec fn on_curve_g1_of(p: G1Affine) -> bool;

/// Whether an affine point satisfies the equation of the twist that G2 lies
/// on, or is its identity.
pub uninterp spec fn on_curve_g2_of(p: G2Affine) -> bool;

/// Whether a point of the twist lies in its subgroup of prime order, G2.
pub uninterp spec fn torsion_free_g2_of(p: G2Affine) -> bool;

/// A point of G1 and a point of G2, as the pairing needs them.
pub open spec fn pairing_inputs_valid(p: G1Affine, q: G2Affine) -> bool {
    on_curve_g1_of(p) && on_curve_g2_of(q) && torsion_free_g2_of(q)
}

/// Whether the product of pairings `e(p1, q1) * e(p2, q2)` is the identity
/// of the target group.
pub uninterp spec fn pairing_is_one(p1: G1Affine, q1: G2Affine, p2: G1Affine, q2: G2Affine) -> bool;

/// Relies on `halo2curves::msm::msm_serial`, started from the identity, over
/// the bases normalized by `Curve::batch_normalize`, and on `Curve::to_affine`
/// for its result: the weighted sum of the bases, in affine form, and the
/// identity for no terms. The scalars are decoded by `PrimeField::from_repr`.
/// It works on one thread, its windows depend on the number of terms alone,
/// and its bucket sums use complete projective additions, so identity bases
/// are accepted and the result is a function of the terms.
#[verifier::external_body]
pub(crate) fn msm_eval(scalars: &Vec<Scalar>, bases: &Vec<G1>) -> (r: G1Affine)
    requires
        scalars.len() == bases.len(),
        all_wf(scalars@),
    ensures
        r == msm_of(scalar_values(scalars@), bases@),
        scalars.len() == 0 ==> is_identity_of(r),
{
    let coeffs: Vec<Fr> = scalars.iter().map(|s| Fr::from_repr(s.repr.into()).unwrap()).collect();
    let mut affine = vec![G1Affine::identity(); bases.len()];
    G1::batch_normalize(bases, &mut affine);
    let mut acc = G1::identity();
    halo2curves::msm::msm_serial(&coeffs, &affine, &mut acc);
    acc.to_affine()
}

/// Relies on `PrimeCurveAffine::is_identity` of `G1Affine`.
#[verifier::external_body]
pub(crate) fn affine_is_identity(p: &G1Affine) -> (r: bool)
    ensures
        r == is_identity_of(*p),
{
    bool::from(p.is_identity())
}

/// Relies on `Neg` of `G2Affine`.
#[verifier::external_body]
pub(crate) fn g2_neg(p: &G2Affine) -> (r: G2Affine)
    ensures
        r == g2_neg_of(*p),
{
    -*p
}

/// Relies on `CurveAffine::is_on_curve` of `G1Affine`, which also accepts
/// the identity.
#[verifier::external_body]
pub(crate) fn g1_on_curve(p: &G1Affine) -> (r: bool)
    ensures
        r == on_curve_g1_of(*p),
        is_identity_of(*p) ==> r,
{
    bool::from(p.is_on_curve())
}

/// Relies on `CurveAffine::is_on_curve` of `G2Affine`.
#[verifier::external_body]
pub(crate) fn g2_on_curve(p: &G2Affine) -> (r: bool)
    ensures
        r == on_curve_g2_of(*p),
{
    bool::from(p.is_on_curve())
}

/// Relies on `CofactorGroup::is_torsion_free` of `G2`, on the point taken
/// to projective form by `From<G2Affine>`.
#[verifier::external_body]
pub(crate) fn g2_torsion_free(p: &G2Affine) -> (r: bool)
    ensures
        r == torsion_free_g2_of(*p),
{
    bool::from(G2::from(*p).is_torsion_free())
}

/// Relies on `MultiMillerLoop::multi_miller_loop` of `Bn256` over the terms
/// `(p1, q1)` and `(p2, q2)`, followed by one
/// `MillerLoopResult::final_exponentiation`: whether the product of the two
/// pairings is the identity of the target group. The loop drops terms with
/// an identity point, so with both G1 points the identity the product is
/// one. The final exponentiation inverts the loop's result, which is not
/// zero for points of G1 and G2: those are required.
#[verifier::external_body]
pub(crate) fn multi_pairing_is_one(p1: &G1Affine, q1: &G2Affine, p2: &G1Affine, q2: &G2Affine) -> (r: bool)
    requires
        pairing_inputs_valid(*p1, *q1),
        pairing_inputs_valid(*p2, *q2),
    ensures
        r == pairing_is_one(*p1, *q1, *p2, *q2),
        is_identity_of(*p1) && is_identity_of(*p2) ==> r,
{
    let terms = [(p1, q1), (p2, q2)];
    bool::from(Bn256::multi_miller_loop(&terms).final_exponentiation().is_identity())
}

} // verus!
