//! Scalars of the BN254 scalar field, held as their canonical little-endian
//! encoding, with the field operations that the accumulators need.

use ff::{Field, PrimeField};
use halo2curves::bn256::Fr;
use rand_core::OsRng;
use vstd::arithmetic::div_mod::{lemma_mul_mod_noop_left, lemma_mul_mod_noop_right};
use vstd::prelude::*;

verus! {

/// The prime order of the BN254 scalar field, which is also the order of
/// the groups G1 and G2.
pub open spec fn modulus() -> int {
    21888242871839275222246405745257275088548364400416034343698204186575808495617int
}

/// The integer that a little-endian byte string encodes.
pub open spec fn le_value(b: Seq<u8>) -> nat
    decreases b.len(),
{
    if b.len() == 0 {
        0
    } else {
        b[0] as nat + 256 * le_value(b.drop_first())
    }
}

/// An element of the BN254 scalar field, as the 32 bytes of its canonical
/// little-endian encoding.
#[derive(Clone, Copy, Debug, PartialEq, Eq)]
pub struct Scalar {
    pub repr: [u8; 32],
}

impl Scalar {
    /// The field element that the bytes encode.
    pub open spec fn val(self) -> int {
        le_value(self.repr@) as int
    }

    /// The encoding is canonical: its value lies below the modulus.
    pub open spec fn wf(self) -> bool {
        self.val() < modulus()
    }
}

/// The product of two field elements.
pub open spec fn field_mul(a: int, b: int) -> int {
    (a * b) % modulus()
}

/// Relies on `Fr` multiplication, with `PrimeField::from_repr` and
/// `PrimeField::to_repr` converting to and from the canonical little-endian
/// encoding: the result encodes the product modulo the field order.
#[verifier::external_body]
pub(crate) fn scalar_mul(a: &Scalar, b: &Scalar) -> (r: Scalar)
    requires
        a.wf(),
        b.wf(),
    ensures
        r.wf(),
        r.val() == field_mul(a.val(), b.val()),
{
    let x = Fr::from_repr(a.repr.into()).unwrap();
    let y = Fr::from_repr(b.repr.into()).unwrap();
    Scalar { repr: (x * y).to_repr().into() }
}

/// Relies on `Field::ONE` of `Fr`: the multiplicative identity.
#[verifier::external_body]
pub(crate) fn scalar_one() -> (r: Scalar)
    ensures
        r.wf(),
        r.val() == 1,
{
    Scalar { repr: Fr::ONE.to_repr().into() }
}

/// Relies on `Field::random` of `Fr`, drawn from the operating system's
/// generator `OsRng`: some field element, canonically encoded. Nothing is
/// known of which one.
#[verifier::external_body]
pub(crate) fn random_scalar() -> (r: Scalar)
    ensures
        r.wf(),
{
    Scalar { repr: Fr::random(OsRng).to_repr().into() }
}

/// Multiplying by a reduced value and by the value itself agree modulo the
/// field order, on either side.
pub(crate) proof fn lemma_field_mul_mod(a: int, b: int)
    ensures
        field_mul(a % modulus(), b) == field_mul(a, b),
        field_mul(a, b % modulus()) == field_mul(a, b),
{
    lemma_mul_mod_noop_left(a, b, modulus());
    lemma_mul_mod_noop_right(a, b, modulus());
}

} // verus!
