//! Verification-side accumulators for KZG opening checks over BN254: a
//! multiscalar-multiplication accumulator, a two-sided pairing accumulator
//! and the batch and single verification strategies built on them.

pub mod curve;
pub mod field;
pub mod msm;
pub mod strategy;
