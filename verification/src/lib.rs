//! An interactive sum-check protocol engine.
//!
//! A Prover convinces a Verifier that the sum of a sparse multivariate
//! polynomial over the boolean hypercube equals a claimed value, one
//! variable per round, without the Verifier summing over all `2^n` points.

mod field;
mod polynomial;
mod prover;
mod protocol;

pub use field::FIELD_MODULUS;
pub use field::Fp;
pub use polynomial::{MultiVariatePolynomial, UnivariatePolynomial};
pub use prover::Prover;
pub use protocol::Verifier;
