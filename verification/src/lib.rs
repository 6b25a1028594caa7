//! A small dense linear-algebra engine and, on top of it, a feed-forward
//! neural network trained by mini-batch stochastic gradient descent.
//!
//! All numeric code is generic over the [`scalar::Scalar`] trait, which
//! packages the arithmetic a scalar type must offer; the algebraic lemmas
//! name the identities they additionally assume of it. The crate ships an
//! `i64` instance and proves it meets those identities; callers may
//! instantiate the engine at any type that implements the trait.

pub mod algebra;
pub mod nn;
pub mod scalar;
