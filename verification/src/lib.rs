//! A generalized inner product argument: a prover that folds two committed
//! message vectors down to length one in logarithmically many rounds, and the
//! verifier that folds the commitments along.
pub mod interfaces;
pub mod transcript;
pub mod fold;
pub mod gipa;
pub mod hash;
pub mod rng;
pub mod prime_field;
pub mod instances;
pub mod bilinear;
pub mod laws;
pub mod instance_laws;
