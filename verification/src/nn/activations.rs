//! Activation strategies: stateless scalar nonlinearities with their
//! derivatives.

use crate::scalar::Scalar;
use vstd::prelude::*;

verus! {

/// A forward nonlinearity `calc` together with its derivative `prime`,
/// evaluated at the pre-activation value.
pub trait Activation<T: Scalar> {
    /// The mathematical forward transform. (The default bodies leave an
    /// implementation's transform unconstrained until it overrides them;
    /// an implementation that keeps them promises nothing about its
    /// values.)
    open spec fn calc_spec(x: T) -> T {
        vstd::pervasive::arbitrary()
    }

    /// The mathematical derivative at the pre-activation value `x`.
    open spec fn prime_spec(x: T) -> T {
        vstd::pervasive::arbitrary()
    }

    fn calc(x: T) -> (r: T)
        ensures
            r == Self::calc_spec(x),
    ;

    fn prime(x: T) -> (r: T)
        ensures
            r == Self::prime_spec(x),
    ;
}

/// The rectifier: `calc` is `max(0, x)`; `prime` is 1 for `x > 0` and 0
/// for `x <= 0` (the boundary `x == 0` counts as 0).
pub struct ReLU;

impl<T: Scalar> Activation<T> for ReLU {
    open spec fn calc_spec(x: T) -> T {
        if T::zero_spec().lt_spec(x) {
            x
        } else {
            T::zero_spec()
        }
    }

    open spec fn prime_spec(x: T) -> T {
        if T::zero_spec().lt_spec(x) {
            T::one_spec()
        } else {
            T::zero_spec()
        }
    }

    fn calc(x: T) -> T {
        let z = T::zero();
        if z.lt(x) {
            x
        } else {
            z
        }
    }

    fn prime(x: T) -> T {
        let z = T::zero();
        if z.lt(x) {
            T::one()
        } else {
            z
        }
    }
}

/// The logistic function `1 / (1 + e^-x)` (guarded against overflow of
/// `e^-x` for very negative inputs), with derivative
/// `calc(x) * (1 - calc(x))`. It is inherently real-valued, so the crate
/// declares the strategy and leaves the implementation to callers whose
/// scalar type carries the needed transcendentals.
pub struct Sigmoid;

/// `ln(1 + e^x)` (returning `x` directly above a large-magnitude
/// threshold, where the remainder is negligible and `e^x` would
/// overflow), with derivative `Sigmoid::calc`. Real-valued like
/// [`Sigmoid`], so likewise implemented by callers.
pub struct Softplus;

} // verus!
