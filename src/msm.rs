//! The multiscalar-multiplication accumulator, the collector that flattens
//! several of them into one, and the two-sided pairing accumulator.
//!
//! An accumulator is modelled by its terms, the values of its scalars and its
//! bases. The terms denote a linear combination of points; `weight` gives the
//! coefficient of each point in it, and the laws below are stated over it.

use halo2curves::bn256::{G1Affine, G2Affine, G1};
use vstd::arithmetic::div_mod::{
    lemma_add_mod_noop, lemma_add_mod_noop_right, lemma_mod_twice, lemma_mul_mod_noop_right,
    lemma_small_mod,
};
use vstd::arithmetic::power::{lemma_pow0, lemma_pow1, pow};
use vstd::prelude::*;

use crate::curve::{
    affine_is_identity, all_wf, g1_on_curve, g2_neg, g2_neg_of, g2_on_curve, g2_torsion_free,
    is_identity_of, msm_eval, msm_of, multi_pairing_is_one, on_curve_g2_of, pairing_inputs_valid,
    pairing_is_one, scalar_values, torsion_free_g2_of,
};
use crate::field::{field_mul, lemma_field_mul_mod, modulus, scalar_mul, scalar_one, Scalar};

verus! {

/// The coefficient that the terms give the point `p`: the sum, modulo the
/// field order, of the values of the scalars whose base is `p`.
/// Bases are compared as the projective values they are held as: the same
/// group element with other coordinates counts as another base, so this is a
/// combination over representations, which determines the one over points.
pub open spec fn weight(scalars: Seq<Scalar>, bases: Seq<G1>, p: G1) -> int
    decreases scalars.len(),
{
    if scalars.len() == 0 {
        0
    } else {
        let n = scalars.len() - 1;
        (weight(scalars.take(n), bases.take(n), p) + if bases[n] == p {
            scalars[n].val()
        } else {
            0
        }) % modulus()
    }
}

/// A multiscalar multiplication, kept as its terms until it is evaluated.
#[derive(Clone, Debug)]
pub struct MSMKZG {
    pub scalars: Vec<Scalar>,
    pub bases: Vec<G1>,
}

impl MSMKZG {
    /// As many scalars as bases, every scalar canonically encoded.
    pub open spec fn wf(&self) -> bool {
        self.scalars.len() == self.bases.len() && all_wf(self.scalars@)
    }

    /// The coefficient of the point `p` in the linear combination.
    pub open spec fn weight(&self, p: G1) -> int {
        weight(self.scalars@, self.bases@, p)
    }

    /// The point that the accumulator evaluates to.
    pub open spec fn value(&self) -> G1Affine {
        msm_of(scalar_values(self.scalars@), self.bases@)
    }

    /// `self` holds the terms of `a` followed by those of `b`.
    pub open spec fn is_merge_of(&self, a: MSMKZG, b: MSMKZG) -> bool {
        &&& self.scalars@ == a.scalars@ + b.scalars@
        &&& self.bases@ == a.bases@ + b.bases@
    }

    /// `self` holds the terms of `a` with every scalar multiplied by `c`.
    pub open spec fn is_scale_of(&self, a: MSMKZG, c: Scalar) -> bool {
        &&& self.bases@ == a.bases@
        &&& self.scalars.len() == a.scalars.len()
        &&& forall|k: int|
            0 <= k < a.scalars.len() ==> (#[trigger] self.scalars[k]).val() == field_mul(
                a.scalars[k].val(),
                c.val(),
            )
    }

    /// `self` holds the terms of `a`, the `k`-th of `n` scalars multiplied by
    /// `base` to the power `n - 1 - k`: the last term keeps its scalar.
    pub open spec fn is_fold_of(&self, a: MSMKZG, base: Scalar) -> bool {
        &&& self.bases@ == a.bases@
        &&& self.scalars.len() == a.scalars.len()
        &&& forall|k: int|
            0 <= k < a.scalars.len() ==> (#[trigger] self.scalars[k]).val() == field_mul(
                a.scalars[k].val(),
                pow(base.val(), (a.scalars.len() - 1 - k) as nat),
            )
    }

    /// An accumulator with no terms.
    pub fn new() -> (r: MSMKZG)
        ensures
            r.wf(),
            r.scalars@ == Seq::<Scalar>::empty(),
            r.bases@ == Seq::<G1>::empty(),
    {
        MSMKZG { scalars: Vec::new(), bases: Vec::new() }
    }

    /// Multiplies the `k`-th of the `n` scalars by `base` to the power
    /// `n - 1 - k`, so that the terms combine as one linear claim under the
    /// challenge `base`.
    pub fn combine_with_base(&mut self, base: Scalar)
        requires
            old(self).wf(),
            base.wf(),
        ensures
            final(self).wf(),
            final(self).is_fold_of(*old(self), base),
    {
        let mut acc = scalar_one();
        let n = self.scalars.len();
        let mut i: usize = n;
        proof {
            lemma_pow0(base.val());
        }
        while i > 0
            invariant
                n == self.scalars.len(),
                n == old(self).scalars.len(),
                self.bases == old(self).bases,
                0 <= i <= n,
                base.wf(),
                acc.wf(),
                acc.val() == pow(base.val(), (n - i) as nat) % modulus(),
                all_wf(self.scalars@),
                forall|k: int| 0 <= k < i ==> self.scalars[k] == old(self).scalars[k],
                forall|k: int|
                    i <= k < n ==> (#[trigger] self.scalars[k]).val() == field_mul(
                        old(self).scalars[k].val(),
                        pow(base.val(), (n - 1 - k) as nat),
                    ),
            decreases i,
        {
            i = i - 1;
            let s = scalar_mul(&self.scalars[i], &acc);
            self.scalars[i] = s;
            let next = scalar_mul(&acc, &base);
            proof {
                let e = (n - 1 - i) as nat;
                lemma_field_mul_mod(old(self).scalars[i as int].val(), pow(base.val(), e));
                lemma_field_mul_mod(pow(base.val(), e), base.val());
                reveal(pow);
                assert(pow(base.val(), e + 1) == base.val() * pow(base.val(), e));
                assert(pow(base.val(), e) * base.val() == base.val() * pow(base.val(), e))
                    by (nonlinear_arith);
                assert((n - i) as nat == e + 1);
            }
            acc = next;
        }
        proof {
            assert(self.wf());
        }
    }

    /// Appends the term `scalar * point`.
    pub fn append_term(&mut self, scalar: Scalar, point: G1)
        requires
            old(self).wf(),
            scalar.wf(),
        ensures
            final(self).wf(),
            final(self).scalars@ == old(self).scalars@.push(scalar),
            final(self).bases@ == old(self).bases@.push(point),
    {
        self.scalars.push(scalar);
        self.bases.push(point);
    }

    /// Appends the terms of `other`, in their order.
    pub fn add_msm(&mut self, other: &MSMKZG)
        requires
            old(self).wf(),
            other.wf(),
        ensures
            final(self).wf(),
            final(self).is_merge_of(*old(self), *other),
    {
        let n = other.scalars.len();
        let mut i: usize = 0;
        while i < n
            invariant
                n == other.scalars.len(),
                n == other.bases.len(),
                0 <= i <= n,
                all_wf(other.scalars@),
                all_wf(self.scalars@),
                self.scalars@ == old(self).scalars@ + other.scalars@.take(i as int),
                self.bases@ == old(self).bases@ + other.bases@.take(i as int),
            decreases n - i,
        {
            self.scalars.push(other.scalars[i]);
            self.bases.push(other.bases[i]);
            i = i + 1;
            proof {
                assert(other.scalars@.take(i as int) == other.scalars@.take(i - 1).push(other.scalars[i - 1]));
                assert(other.bases@.take(i as int) == other.bases@.take(i - 1).push(other.bases[i - 1]));
            }
        }
        proof {
            assert(other.scalars@.take(n as int) == other.scalars@);
            assert(other.bases@.take(n as int) == other.bases@);
        }
    }

    /// Multiplies every scalar by `factor`, in place and in order.
    pub fn scale(&mut self, factor: Scalar)
        requires
            old(self).wf(),
            factor.wf(),
        ensures
            final(self).wf(),
            final(self).is_scale_of(*old(self), factor),
    {
        let n = self.scalars.len();
        let mut i: usize = 0;
        while i < n
            invariant
                n == self.scalars.len(),
                n == old(self).scalars.len(),
                self.bases == old(self).bases,
                0 <= i <= n,
                factor.wf(),
                all_wf(self.scalars@),
                forall|k: int| i <= k < n ==> self.scalars[k] == old(self).scalars[k],
                forall|k: int|
                    0 <= k < i ==> (#[trigger] self.scalars[k]).val() == field_mul(
                        old(self).scalars[k].val(),
                        factor.val(),
                    ),
            decreases n - i,
        {
            let s = scalar_mul(&self.scalars[i], &factor);
            self.scalars[i] = s;
            i = i + 1;
        }
    }

    /// Whether the accumulator evaluates to the identity.
    pub fn check(&self) -> (r: bool)
        requires
            self.wf(),
        ensures
            r == is_identity_of(self.value()),
    {
        affine_is_identity(&self.eval())
    }

    /// The point `sum_i scalars[i] * bases[i]`, in affine form.
    pub fn eval(&self) -> (r: G1Affine)
        requires
            self.wf(),
        ensures
            r == self.value(),
            self.scalars.len() == 0 ==> is_identity_of(r),
    {
        msm_eval(&self.scalars, &self.bases)
    }

    /// A copy of the bases.
    pub fn bases(&self) -> (r: Vec<G1>)
        ensures
            r@ == self.bases@,
    {
        let mut r: Vec<G1> = Vec::new();
        let mut i: usize = 0;
        while i < self.bases.len()
            invariant
                0 <= i <= self.bases.len(),
                r@ == self.bases@.take(i as int),
            decreases self.bases.len() - i,
        {
            r.push(self.bases[i]);
            i = i + 1;
            proof {
                assert(self.bases@.take(i as int) == self.bases@.take(i - 1).push(self.bases[i - 1]));
            }
        }
        proof {
            assert(self.bases@.take(i as int) == self.bases@);
        }
        r
    }

    /// A copy of the scalars.
    pub fn scalars(&self) -> (r: Vec<Scalar>)
        ensures
            r@ == self.scalars@,
    {
        let mut r: Vec<Scalar> = Vec::new();
        let mut i: usize = 0;
        while i < self.scalars.len()
            invariant
                0 <= i <= self.scalars.len(),
                r@ == self.scalars@.take(i as int),
            decreases self.scalars.len() - i,
        {
            r.push(self.scalars[i]);
            i = i + 1;
            proof {
                assert(self.scalars@.take(i as int) == self.scalars@.take(i - 1).push(self.scalars[i - 1]));
            }
        }
        proof {
            assert(self.scalars@.take(i as int) == self.scalars@);
        }
        r
    }
}

/// Terms appended after others add their coefficients to those of the
/// others.
pub proof fn lemma_weight_concat(s1: Seq<Scalar>, b1: Seq<G1>, s2: Seq<Scalar>, b2: Seq<G1>, p: G1)
    requires
        s1.len() == b1.len(),
        s2.len() == b2.len(),
    ensures
        weight(s1 + s2, b1 + b2, p) == (weight(s1, b1, p) + weight(s2, b2, p)) % modulus(),
    decreases s2.len(),
{
    if s2.len() == 0 {
        assert(s1 + s2 =~= s1);
        assert(b1 + b2 =~= b1);
    } else {
        let n2 = (s2.len() - 1) as int;
        let n = s1.len() + n2;
        assert((s1 + s2).take(n) =~= s1 + s2.take(n2));
        assert((b1 + b2).take(n) =~= b1 + b2.take(n2));
        lemma_weight_concat(s1, b1, s2.take(n2), b2.take(n2), p);
        let w1 = weight(s1, b1, p);
        let w2 = weight(s2.take(n2), b2.take(n2), p);
        let t = if b2[n2] == p {
            s2[n2].val()
        } else {
            0
        };
        lemma_add_mod_noop_right(t, w1 + w2, modulus());
        lemma_add_mod_noop_right(w1, w2 + t, modulus());
        assert(t + (w1 + w2) == w1 + (w2 + t));
    }
}

/// Scalars multiplied by `c` multiply every coefficient by `c`.
pub proof fn lemma_weight_scale(s: Seq<Scalar>, t: Seq<Scalar>, b: Seq<G1>, c: int, p: G1)
    requires
        s.len() == b.len(),
        t.len() == b.len(),
        forall|k: int| 0 <= k < s.len() ==> (#[trigger] t[k]).val() == field_mul(s[k].val(), c),
    ensures
        weight(t, b, p) == field_mul(c, weight(s, b, p)),
    decreases s.len(),
{
    if s.len() > 0 {
        let n = (s.len() - 1) as int;
        assert forall|k: int| 0 <= k < n implies (#[trigger] t.take(n)[k]).val() == field_mul(
            s.take(n)[k].val(),
            c,
        ) by {
            assert(t.take(n)[k] == t[k]);
            assert(s.take(n)[k] == s[k]);
        }
        lemma_weight_scale(s.take(n), t.take(n), b.take(n), c, p);
        let ws = weight(s.take(n), b.take(n), p);
        let xs = if b[n] == p {
            s[n].val()
        } else {
            0
        };
        lemma_mul_mod_noop_right(c, ws + xs, modulus());
        assert(c * (ws + xs) == c * ws + c * xs) by (nonlinear_arith);
        lemma_add_mod_noop(c * ws, c * xs, modulus());
        assert(s[n].val() * c == c * s[n].val()) by (nonlinear_arith);
        assert(c * 0 == 0);
        lemma_add_mod_noop(c * ws, if b[n] == p { s[n].val() * c } else { 0 }, modulus());
        lemma_mod_twice(c * ws, modulus());
        lemma_mod_twice(c * xs, modulus());
    }
}

/// Every power of one is one.
proof fn lemma_pow_of_one(e: nat)
    ensures
        pow(1, e) == 1,
    decreases e,
{
    reveal(pow);
    if e > 0 {
        lemma_pow_of_one((e - 1) as nat);
    }
}

/// Merging adds linear combinations: the coefficient of every point in the
/// merge is the sum of its coefficients in the two accumulators.
pub proof fn lemma_merge_adds(a: MSMKZG, b: MSMKZG, m: MSMKZG)
    requires
        a.wf(),
        b.wf(),
        m.is_merge_of(a, b),
    ensures
        forall|p: G1| #[trigger] m.weight(p) == (a.weight(p) + b.weight(p)) % modulus(),
{
    assert forall|p: G1| #[trigger] m.weight(p) == (a.weight(p) + b.weight(p)) % modulus() by {
        lemma_weight_concat(a.scalars@, a.bases@, b.scalars@, b.bases@, p);
    }
}

/// Merging in either order gives the same linear combination.
pub proof fn lemma_merge_order(a: MSMKZG, b: MSMKZG, ab: MSMKZG, ba: MSMKZG)
    requires
        a.wf(),
        b.wf(),
        ab.is_merge_of(a, b),
        ba.is_merge_of(b, a),
    ensures
        forall|p: G1| #[trigger] ab.weight(p) == ba.weight(p),
{
    assert forall|p: G1| #[trigger] ab.weight(p) == ba.weight(p) by {
        lemma_weight_concat(a.scalars@, a.bases@, b.scalars@, b.bases@, p);
        lemma_weight_concat(b.scalars@, b.bases@, a.scalars@, a.bases@, p);
    }
}

/// Scaling an accumulator by `c` multiplies the coefficient of every point
/// by `c`.
pub proof fn lemma_scale_multiplies(a: MSMKZG, c: Scalar, m: MSMKZG)
    requires
        a.wf(),
        m.is_scale_of(a, c),
    ensures
        forall|p: G1| #[trigger] m.weight(p) == field_mul(c.val(), a.weight(p)),
{
    assert forall|p: G1| #[trigger] m.weight(p) == field_mul(c.val(), a.weight(p)) by {
        lemma_weight_scale(a.scalars@, m.scalars@, a.bases@, c.val(), p);
    }
}

/// Folding by the base one leaves the value of every scalar, and so the
/// linear combination, as it was.
pub proof fn lemma_fold_by_one(a: MSMKZG, base: Scalar, f: MSMKZG)
    requires
        a.wf(),
        base.val() == 1,
        f.is_fold_of(a, base),
    ensures
        forall|k: int| 0 <= k < a.scalars.len() ==> (#[trigger] f.scalars[k]).val() == a.scalars[k].val(),
        forall|p: G1| #[trigger] f.weight(p) == a.weight(p),
{
    assert forall|k: int| 0 <= k < a.scalars.len() implies (#[trigger] f.scalars[k]).val() == field_mul(
        a.scalars[k].val(),
        1,
    ) by {
        lemma_pow_of_one((a.scalars.len() - 1 - k) as nat);
    }
    assert forall|k: int| 0 <= k < a.scalars.len() implies (#[trigger] f.scalars[k]).val() == a.scalars[k].val() by {
        assert(a.scalars[k].wf());
        lemma_small_mod(a.scalars[k].val() as nat, modulus() as nat);
    }
    assert forall|p: G1| #[trigger] f.weight(p) == a.weight(p) by {
        lemma_weight_scale(a.scalars@, f.scalars@, a.bases@, 1, p);
        lemma_small_mod(a.weight(p) as nat, modulus() as nat);
    }
}

/// Folding the two terms `s0 * p0, s1 * p1` by `b` gives `s0 * b * p0 +
/// s1 * p1`: the most recent term keeps its scalar.
pub proof fn lemma_fold_two_terms(a: MSMKZG, base: Scalar, f: MSMKZG)
    requires
        a.wf(),
        a.scalars.len() == 2,
        f.is_fold_of(a, base),
    ensures
        f.bases@ == a.bases@,
        f.scalars[0].val() == field_mul(a.scalars[0].val(), base.val()),
        f.scalars[1].val() == a.scalars[1].val(),
{
    lemma_pow1(base.val());
    lemma_pow0(base.val());
    assert(f.scalars[0].val() == field_mul(a.scalars[0].val(), pow(base.val(), 1)));
    assert(f.scalars[1].val() == field_mul(a.scalars[1].val(), pow(base.val(), 0)));
    assert(a.scalars[1].wf());
    lemma_small_mod(a.scalars[1].val() as nat, modulus() as nat);
}

/// The scalars of the accumulators, concatenated in their order.
pub open spec fn concat_scalars(ms: Seq<MSMKZG>) -> Seq<Scalar>
    decreases ms.len(),
{
    if ms.len() == 0 {
        Seq::empty()
    } else {
        concat_scalars(ms.drop_last()) + ms.last().scalars@
    }
}

/// The bases of the accumulators, concatenated in their order.
pub open spec fn concat_bases(ms: Seq<MSMKZG>) -> Seq<G1>
    decreases ms.len(),
{
    if ms.len() == 0 {
        Seq::empty()
    } else {
        concat_bases(ms.drop_last()) + ms.last().bases@
    }
}

/// The number of terms of the accumulators together.
pub open spec fn total_terms(ms: Seq<MSMKZG>) -> int
    decreases ms.len(),
{
    if ms.len() == 0 {
        0
    } else {
        total_terms(ms.drop_last()) + ms.last().scalars.len()
    }
}

/// The coefficient of `p` in the sum of the accumulators' combinations.
pub open spec fn total_weight(ms: Seq<MSMKZG>, p: G1) -> int
    decreases ms.len(),
{
    if ms.len() == 0 {
        0
    } else {
        (total_weight(ms.drop_last(), p) + ms.last().weight(p)) % modulus()
    }
}

/// Every accumulator of the sequence is well formed.
pub open spec fn all_msms_wf(ms: Seq<MSMKZG>) -> bool {
    forall|i: int| 0 <= i < ms.len() ==> (#[trigger] ms[i]).wf()
}

/// A collector of accumulators produced apart, kept as they came until they
/// are flattened into one.
#[derive(Clone, Debug)]
pub struct PreMSM {
    pub projectives_msms: Vec<MSMKZG>,
}

impl PreMSM {
    /// Every collected accumulator is well formed.
    pub open spec fn wf(&self) -> bool {
        all_msms_wf(self.projectives_msms@)
    }

    /// A collector with no accumulators.
    pub fn new() -> (r: PreMSM)
        ensures
            r.wf(),
            r.projectives_msms@ == Seq::<MSMKZG>::empty(),
    {
        PreMSM { projectives_msms: Vec::new() }
    }

    /// Stores `other` as it is.
    pub fn add_msm(&mut self, other: MSMKZG)
        requires
            old(self).wf(),
            other.wf(),
        ensures
            final(self).wf(),
            final(self).projectives_msms@ == old(self).projectives_msms@.push(other),
    {
        self.projectives_msms.push(other);
    }

    /// One accumulator with the terms of all collected ones, in the order in
    /// which they were added.
    pub fn normalize(self) -> (r: MSMKZG)
        requires
            self.wf(),
        ensures
            r.wf(),
            r.scalars@ == concat_scalars(self.projectives_msms@),
            r.bases@ == concat_bases(self.projectives_msms@),
    {
        let ghost ms = self.projectives_msms@;
        let mut r = MSMKZG::new();
        let mut i: usize = 0;
        while i < self.projectives_msms.len()
            invariant
                ms == self.projectives_msms@,
                all_msms_wf(ms),
                0 <= i <= ms.len(),
                r.wf(),
                r.scalars@ == concat_scalars(ms.take(i as int)),
                r.bases@ == concat_bases(ms.take(i as int)),
            decreases ms.len() - i,
        {
            r.add_msm(&self.projectives_msms[i]);
            proof {
                assert(ms.take(i + 1).drop_last() =~= ms.take(i as int));
                assert(ms.take(i + 1).last() == ms[i as int]);
            }
            i = i + 1;
        }
        proof {
            assert(ms.take(ms.len() as int) =~= ms);
        }
        r
    }
}

/// The concatenated terms of several accumulators have as many terms as
/// they have together, and the sum of their combinations.
proof fn lemma_concat_terms(ms: Seq<MSMKZG>, p: G1)
    requires
        all_msms_wf(ms),
    ensures
        concat_scalars(ms).len() == total_terms(ms),
        concat_bases(ms).len() == total_terms(ms),
        weight(concat_scalars(ms), concat_bases(ms), p) == total_weight(ms, p),
    decreases ms.len(),
{
    if ms.len() > 0 {
        let init = ms.drop_last();
        assert(ms.last() == ms[ms.len() - 1]);
        assert(ms.last().wf());
        assert forall|i: int| 0 <= i < init.len() implies (#[trigger] init[i]).wf() by {
            assert(init[i] == ms[i]);
        }
        lemma_concat_terms(init, p);
        lemma_weight_concat(
            concat_scalars(init),
            concat_bases(init),
            ms.last().scalars@,
            ms.last().bases@,
            p,
        );
    }
}

/// Flattening collected accumulators keeps every term once: the result has
/// as many terms as they have together, and its linear combination is the
/// sum of theirs.
pub proof fn lemma_flatten(ms: Seq<MSMKZG>, r: MSMKZG)
    requires
        all_msms_wf(ms),
        r.scalars@ == concat_scalars(ms),
        r.bases@ == concat_bases(ms),
    ensures
        r.scalars.len() == total_terms(ms),
        forall|p: G1| #[trigger] r.weight(p) == total_weight(ms, p),
{
    lemma_concat_terms(ms, arbitrary());
    assert forall|p: G1| #[trigger] r.weight(p) == total_weight(ms, p) by {
        lemma_concat_terms(ms, p);
    }
}

/// The two points of the verifier's parameters that the pairing equation
/// uses: the generator `[1]_2` of G2 and `[s]_2`.
#[derive(Clone, Copy, Debug)]
pub struct VerifierParams {
    pub g2: G2Affine,
    pub s_g2: G2Affine,
}

/// A two-sided accumulator for the claim `e(left, [s]_2) * e(right, -[1]_2) = 1`.
#[derive(Clone, Debug)]
pub struct DualMSM<'a> {
    pub params: &'a VerifierParams,
    pub left: MSMKZG,
    pub right: MSMKZG,
}

impl<'a> DualMSM<'a> {
    /// Both sides are well formed.
    pub open spec fn wf(&self) -> bool {
        self.left.wf() && self.right.wf()
    }

    /// Whether the pairing equation holds of what the two sides evaluate to.
    pub open spec fn holds(&self) -> bool {
        pairing_is_one(self.left.value(), self.params.s_g2, self.right.value(), g2_neg_of(self.params.g2))
    }

    /// What the two sides evaluate to and the two reference points, with
    /// `[1]_2` negated, are points of G1 and G2.
    pub open spec fn points_valid(&self) -> bool {
        &&& pairing_inputs_valid(self.left.value(), self.params.s_g2)
        &&& pairing_inputs_valid(self.right.value(), g2_neg_of(self.params.g2))
    }

    /// The reference points, with `[1]_2` negated, are points of G2.
    pub open spec fn params_valid(&self) -> bool {
        &&& on_curve_g2_of(self.params.s_g2)
        &&& torsion_free_g2_of(self.params.s_g2)
        &&& on_curve_g2_of(g2_neg_of(self.params.g2))
        &&& torsion_free_g2_of(g2_neg_of(self.params.g2))
    }

    /// The claim is accepted: its points are valid and the pairing equation
    /// holds of them.
    pub open spec fn accepts(&self) -> bool {
        self.points_valid() && self.holds()
    }

    /// `self` is `a` with both sides scaled by the same `c`.
    pub open spec fn is_scale_of(&self, a: DualMSM<'a>, c: Scalar) -> bool {
        &&& self.params == a.params
        &&& self.left.is_scale_of(a.left, c)
        &&& self.right.is_scale_of(a.right, c)
    }

    /// An accumulator with both sides empty.
    pub fn new(params: &'a VerifierParams) -> (r: DualMSM<'a>)
        ensures
            r.wf(),
            r.params == params,
            r.left.scalars@ == Seq::<Scalar>::empty(),
            r.left.bases@ == Seq::<G1>::empty(),
            r.right.scalars@ == Seq::<Scalar>::empty(),
            r.right.bases@ == Seq::<G1>::empty(),
    {
        DualMSM { params, left: MSMKZG::new(), right: MSMKZG::new() }
    }

    /// Scales both sides by the same factor.
    pub fn scale(&mut self, e: Scalar)
        requires
            old(self).wf(),
            e.wf(),
        ensures
            final(self).wf(),
            final(self).is_scale_of(*old(self), e),
    {
        self.left.scale(e);
        self.right.scale(e);
    }

    /// Merges the sides of `other` into the matching sides of `self`.
    pub fn add_msm(&mut self, other: DualMSM<'a>)
        requires
            old(self).wf(),
            other.wf(),
        ensures
            final(self).wf(),
            final(self).params == old(self).params,
            final(self).left.is_merge_of(old(self).left, other.left),
            final(self).right.is_merge_of(old(self).right, other.right),
    {
        self.left.add_msm(&other.left);
        self.right.add_msm(&other.right);
    }

    /// Evaluates both sides and checks the pairing equation with one
    /// multi-pairing. Points outside G1 or G2 (a point off its curve, or a
    /// reference point outside the prime-order subgroup) make no valid claim:
    /// the check rejects them before pairing. With both sides empty and valid
    /// reference points it accepts.
    pub fn check(self) -> (r: bool)
        requires
            self.wf(),
        ensures
            r == self.accepts(),
            self.left.scalars.len() == 0 && self.right.scalars.len() == 0 && self.params_valid() ==> r,
    {
        let neg_g2 = g2_neg(&self.params.g2);
        let left = self.left.eval();
        let right = self.right.eval();
        let valid = g1_on_curve(&left) && g2_on_curve(&self.params.s_g2) && g2_torsion_free(
            &self.params.s_g2,
        ) && g1_on_curve(&right) && g2_on_curve(&neg_g2) && g2_torsion_free(&neg_g2);
        if valid {
            multi_pairing_is_one(&left, &self.params.s_g2, &right, &neg_g2)
        } else {
            false
        }
    }
}

} // verus!
