//! The verification strategies: a batch strategy that randomizes the running
//! accumulator before folding in each proof and checks once at the end, and
//! a single strategy that checks its one proof at once.

use vstd::prelude::*;

use crate::field::{random_scalar, Scalar};
use crate::msm::{DualMSM, VerifierParams};

verus! {

/// Why verifying a proof failed.
#[derive(Clone, Copy, Debug, PartialEq, Eq)]
pub enum Error {
    /// The pairing check on the accumulated claims failed.
    ConstraintSystemFailure,
    /// The proof was malformed, or its transcript inconsistent.
    Transcript,
}

/// The accumulator that the opening verifier hands back after folding one
/// proof's obligations into it.
#[derive(Clone, Debug)]
pub struct GuardKZG<'a> {
    pub msm_accumulator: DualMSM<'a>,
}

impl<'a> GuardKZG<'a> {
    /// Wraps an accumulator.
    pub fn new(msm_accumulator: DualMSM<'a>) -> (r: GuardKZG<'a>)
        ensures
            r.msm_accumulator == msm_accumulator,
    {
        GuardKZG { msm_accumulator }
    }
}

/// An opening verifier accepts every well-formed accumulator and hands back
/// well-formed ones.
pub open spec fn is_opening_verifier<'a, F: FnOnce(DualMSM<'a>) -> Result<GuardKZG<'a>, Error>>(f: F) -> bool {
    &&& forall|a: DualMSM<'a>| a.wf() ==> #[trigger] f.requires((a,))
    &&& forall|a: DualMSM<'a>, out: Result<GuardKZG<'a>, Error>|
        #[trigger] f.ensures((a,), out) && out is Ok ==> out->Ok_0.msm_accumulator.wf()
}

/// A verifier that checks many proofs in one batch.
#[derive(Clone, Debug)]
pub struct AccumulatorStrategy<'a> {
    pub msm_accumulator: DualMSM<'a>,
}

impl<'a> AccumulatorStrategy<'a> {
    /// The running accumulator is well formed.
    pub open spec fn wf(&self) -> bool {
        self.msm_accumulator.wf()
    }

    /// A batch verifier with an empty accumulator.
    pub fn new(params: &'a VerifierParams) -> (r: AccumulatorStrategy<'a>)
        ensures
            r.wf(),
            r.msm_accumulator.params == params,
            r.msm_accumulator.left.scalars@.len() == 0,
            r.msm_accumulator.right.scalars@.len() == 0,
    {
        AccumulatorStrategy { msm_accumulator: DualMSM::new(params) }
    }

    /// A batch verifier that goes on from an accumulator.
    pub fn with(msm_accumulator: DualMSM<'a>) -> (r: AccumulatorStrategy<'a>)
        ensures
            r.msm_accumulator == msm_accumulator,
    {
        AccumulatorStrategy { msm_accumulator }
    }

    /// `r` is what comes of handing `f` the running accumulator with both
    /// sides scaled by `c`: the accumulator `f` hands back becomes the new
    /// state, and its error is passed on.
    pub open spec fn processed_by<F: FnOnce(DualMSM<'a>) -> Result<GuardKZG<'a>, Error>>(
        self,
        c: Scalar,
        f: F,
        r: Result<AccumulatorStrategy<'a>, Error>,
    ) -> bool {
        exists|a: DualMSM<'a>, out: Result<GuardKZG<'a>, Error>|
            {
                &&& a.wf()
                &&& #[trigger] a.is_scale_of(self.msm_accumulator, c)
                &&& #[trigger] f.ensures((a,), out)
                &&& match out {
                    Ok(g) => r == Ok::<AccumulatorStrategy<'a>, Error>(
                        (AccumulatorStrategy { msm_accumulator: g.msm_accumulator }),
                    ),
                    Err(e) => r == Err::<AccumulatorStrategy<'a>, Error>(e),
                }
            }
    }

    /// Scales the running accumulator by `c`, then hands it to the opening
    /// verifier `f`. Its accumulator becomes the new state; its error ends
    /// the batch.
    pub fn process_with_factor<F>(self, c: Scalar, f: F) -> (r: Result<AccumulatorStrategy<'a>, Error>)
        where
            F: FnOnce(DualMSM<'a>) -> Result<GuardKZG<'a>, Error>,
        requires
            self.wf(),
            c.wf(),
            is_opening_verifier(f),
        ensures
            self.processed_by(c, f, r),
            r is Ok ==> r->Ok_0.wf(),
    {
        let mut acc = self.msm_accumulator;
        acc.scale(c);
        let ghost scaled = acc;
        let out = f(acc);
        let r = match out {
            Ok(guard) => Ok(AccumulatorStrategy { msm_accumulator: guard.msm_accumulator }),
            Err(e) => Err(e),
        };
        proof {
            assert(f.ensures((scaled,), out));
            assert(scaled.is_scale_of(self.msm_accumulator, c));
        }
        r
    }

    /// Scales the running accumulator by a fresh random scalar, then hands it
    /// to the opening verifier `f`, as `process_with_factor` does.
    pub fn process<F>(self, f: F) -> (r: Result<AccumulatorStrategy<'a>, Error>)
        where
            F: FnOnce(DualMSM<'a>) -> Result<GuardKZG<'a>, Error>,
        requires
            self.wf(),
            is_opening_verifier(f),
        ensures
            exists|c: Scalar| c.wf() && #[trigger] self.processed_by(c, f, r),
            r is Ok ==> r->Ok_0.wf(),
    {
        let c = random_scalar();
        let ghost old_self = self;
        let r = self.process_with_factor(c, f);
        proof {
            assert(old_self.processed_by(c, f, r));
        }
        r
    }

    /// Checks the pairing equation of the whole batch once, as
    /// `DualMSM::check` does.
    pub fn finalize(self) -> (r: bool)
        requires
            self.wf(),
        ensures
            r == self.msm_accumulator.accepts(),
            self.msm_accumulator.left.scalars.len() == 0 && self.msm_accumulator.right.scalars.len()
                == 0 && self.msm_accumulator.params_valid() ==> r,
    {
        self.msm_accumulator.check()
    }
}

/// A verifier that checks a single proof.
#[derive(Clone, Debug)]
pub struct SingleStrategy<'a> {
    pub msm: DualMSM<'a>,
}

impl<'a> SingleStrategy<'a> {
    /// The accumulator is well formed.
    pub open spec fn wf(&self) -> bool {
        self.msm.wf()
    }

    /// A single-proof verifier with an empty accumulator.
    pub fn new(params: &'a VerifierParams) -> (r: SingleStrategy<'a>)
        ensures
            r.wf(),
            r.msm.params == params,
            r.msm.left.scalars@.len() == 0,
            r.msm.right.scalars@.len() == 0,
    {
        SingleStrategy { msm: DualMSM::new(params) }
    }

    /// Hands the accumulator to the opening verifier `f` and checks what it
    /// hands back at once, as `DualMSM::check` does.
    pub fn process<F>(self, f: F) -> (r: Result<(), Error>)
        where
            F: FnOnce(DualMSM<'a>) -> Result<GuardKZG<'a>, Error>,
        requires
            self.wf(),
            is_opening_verifier(f),
        ensures
            exists|out: Result<GuardKZG<'a>, Error>|
                {
                    &&& #[trigger] f.ensures((self.msm,), out)
                    &&& match out {
                        Ok(g) => if g.msm_accumulator.accepts() {
                            r == Ok::<(), Error>(())
                        } else {
                            r == Err::<(), Error>(Error::ConstraintSystemFailure)
                        },
                        Err(e) => r == Err::<(), Error>(e),
                    }
                },
    {
        let ghost msm = self.msm;
        let out = f(self.msm);
        proof {
            assert(f.ensures((msm,), out));
        }
        match out {
            Ok(guard) => {
                if guard.msm_accumulator.check() {
                    Ok(())
                } else {
                    Err(Error::ConstraintSystemFailure)
                }
            },
            Err(e) => Err(e),
        }
    }
}

} // verus!
