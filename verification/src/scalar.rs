//! The arithmetic interface of the engine.
//!
//! Every matrix and network operation is stated against the abstract
//! operations of [`Scalar`], so the contracts of the whole crate are exact
//! for any scalar type whose implementation meets them.

use vstd::prelude::*;

verus! {

/// A scalar type the algebra engine can compute with.
///
/// The `*_spec` functions are the mathematical meaning of the operations;
/// each executable operation must return exactly its spec counterpart.
/// The engine's algebraic lemmas state the identities they additionally
/// assume (additive identity, multiplicative identity and annihilator,
/// self-cancellation of subtraction) as their hypotheses; see
/// [`lemma_i64_scalar_laws`] for the proof that the `i64` instance
/// satisfies them.
pub trait Scalar: Sized + Copy {
    /// The additive identity. (The default bodies leave the meaning of an
    /// implementation's arithmetic unconstrained until it overrides them;
    /// an implementation that keeps them promises nothing about its
    /// operations' values.)
    open spec fn zero_spec() -> Self {
        vstd::pervasive::arbitrary()
    }

    /// The multiplicative identity.
    open spec fn one_spec() -> Self {
        vstd::pervasive::arbitrary()
    }

    open spec fn plus_spec(self, rhs: Self) -> Self {
        vstd::pervasive::arbitrary()
    }

    open spec fn minus_spec(self, rhs: Self) -> Self {
        vstd::pervasive::arbitrary()
    }

    open spec fn times_spec(self, rhs: Self) -> Self {
        vstd::pervasive::arbitrary()
    }

    /// Total division: implementations choose a value when `rhs` is the
    /// zero of the type, so that callers need no side condition.
    open spec fn div_spec(self, rhs: Self) -> Self {
        vstd::pervasive::arbitrary()
    }

    /// The strict order used by threshold activations.
    open spec fn lt_spec(self, rhs: Self) -> bool {
        vstd::pervasive::arbitrary()
    }

    /// The scalar standing for the count `n` (saturating if `n` is too
    /// large for the type).
    open spec fn from_count_spec(n: int) -> Self {
        vstd::pervasive::arbitrary()
    }

    fn zero() -> (r: Self)
        ensures
            r == Self::zero_spec(),
    ;

    fn one() -> (r: Self)
        ensures
            r == Self::one_spec(),
    ;

    fn plus(self, rhs: Self) -> (r: Self)
        ensures
            r == self.plus_spec(rhs),
    ;

    fn minus(self, rhs: Self) -> (r: Self)
        ensures
            r == self.minus_spec(rhs),
    ;

    fn times(self, rhs: Self) -> (r: Self)
        ensures
            r == self.times_spec(rhs),
    ;

    fn div(self, rhs: Self) -> (r: Self)
        ensures
            r == self.div_spec(rhs),
    ;

    fn lt(self, rhs: Self) -> (r: bool)
        ensures
            r == self.lt_spec(rhs),
    ;

    fn from_count(n: usize) -> (r: Self)
        ensures
            r == Self::from_count_spec(n as int),
    ;

    /// The lower end of the parameter-draw interval: the scalar standing
    /// for -0.3.
    open spec fn draw_lo_spec() -> Self {
        vstd::pervasive::arbitrary()
    }

    /// The upper end of the parameter-draw interval: the scalar standing
    /// for 0.3.
    open spec fn draw_hi_spec() -> Self {
        vstd::pervasive::arbitrary()
    }

    /// One draw for parameter initialisation. The intended distribution is
    /// uniform over the scalar's values in the half-open draw interval;
    /// only membership in that interval is promised, so callers must not
    /// depend on the value.
    fn draw_param() -> (r: Self)
        ensures
            !r.lt_spec(Self::draw_lo_spec()),
            r.lt_spec(Self::draw_hi_spec()),
    ;
}

/// Whether `v` lies in the half-open parameter-draw interval
/// `[draw_lo, draw_hi)` of its type, under the type's own order.
pub open spec fn in_draw_range<T: Scalar>(v: T) -> bool {
    !v.lt_spec(T::draw_lo_spec()) && v.lt_spec(T::draw_hi_spec())
}

/// `i64` computes with wrapping arithmetic, so every operation is total.
impl Scalar for i64 {
    open spec fn zero_spec() -> i64 {
        0
    }

    open spec fn one_spec() -> i64 {
        1
    }

    open spec fn plus_spec(self, rhs: i64) -> i64 {
        self.wrapping_add(rhs)
    }

    open spec fn minus_spec(self, rhs: i64) -> i64 {
        self.wrapping_sub(rhs)
    }

    open spec fn times_spec(self, rhs: i64) -> i64 {
        self.wrapping_mul(rhs)
    }

    open spec fn div_spec(self, rhs: i64) -> i64 {
        match self.checked_div(rhs) {
            Some(q) => q,
            None => if rhs == 0 {
                0
            } else {
                i64::MIN
            },
        }
    }

    open spec fn lt_spec(self, rhs: i64) -> bool {
        self < rhs
    }

    open spec fn from_count_spec(n: int) -> i64 {
        if n > i64::MAX {
            i64::MAX
        } else {
            n as i64
        }
    }

    fn zero() -> i64 {
        0
    }

    fn one() -> i64 {
        1
    }

    fn plus(self, rhs: i64) -> i64 {
        self.wrapping_add(rhs)
    }

    fn minus(self, rhs: i64) -> i64 {
        self.wrapping_sub(rhs)
    }

    fn times(self, rhs: i64) -> i64 {
        self.wrapping_mul(rhs)
    }

    fn div(self, rhs: i64) -> i64 {
        match self.checked_div(rhs) {
            Some(q) => q,
            None => if rhs == 0 {
                0
            } else {
                i64::MIN
            },
        }
    }

    fn lt(self, rhs: i64) -> bool {
        self < rhs
    }

    fn from_count(n: usize) -> i64 {
        if n as u64 > i64::MAX as u64 {
            i64::MAX
        } else {
            n as i64
        }
    }

    /// The integer draw interval is `[0, 1)`: rounding the real interval
    /// `[-0.3, 0.3)` to the integers leaves zero as its only member.
    open spec fn draw_lo_spec() -> i64 {
        0
    }

    open spec fn draw_hi_spec() -> i64 {
        1
    }

    fn draw_param() -> i64 {
        0
    }
}

/// The `i64` scalar satisfies the algebraic identities that the engine's
/// laws (the identity-matrix and self-cost lemmas) take as hypotheses:
/// zero is an additive identity on either side, one a right multiplicative
/// identity, zero a right annihilator, and subtraction of a value from
/// itself gives zero.
pub proof fn lemma_i64_scalar_laws()
    ensures
        forall|a: i64| #[trigger] a.plus_spec(<i64 as Scalar>::zero_spec()) == a,
        forall|a: i64| #[trigger] <i64 as Scalar>::zero_spec().plus_spec(a) == a,
        forall|a: i64| #[trigger] a.times_spec(<i64 as Scalar>::one_spec()) == a,
        forall|a: i64|
            #[trigger] a.times_spec(<i64 as Scalar>::zero_spec()) == <i64 as Scalar>::zero_spec(),
        forall|a: i64| #[trigger] a.minus_spec(a) == <i64 as Scalar>::zero_spec(),
{
    assert forall|a: i64| #[trigger] a.times_spec(<i64 as Scalar>::one_spec()) == a by {
        lemma_wrapping_mul_one(a);
    }
    assert forall|a: i64|
        #[trigger] a.times_spec(<i64 as Scalar>::zero_spec())
            == <i64 as Scalar>::zero_spec() by {
        assert(a * 0 == 0);
        assert(0int % 0x1_0000_0000_0000_0000int == 0);
    }
}

/// Relies on `rand::Rng::gen_range` over the half-open range `low..high`:
/// the draw is uniform over `[low, high)`, and the call panics only on an
/// empty range, which the precondition rules out.
#[verifier::external_body]
pub(crate) fn rand_in_range(low: i64, high: i64) -> (r: i64)
    requires
        low < high,
    ensures
        low <= r < high,
{
    rand::Rng::gen_range(&mut rand::thread_rng(), low..high)
}

proof fn lemma_wrapping_mul_one(a: i64)
    ensures
        a.wrapping_mul(1) == a,
{
    let range = 0x1_0000_0000_0000_0000int;
    assert(a * 1 == a);
    if a >= 0 {
        assert((a as int) % range == a) by (nonlinear_arith)
            requires
                0 <= a < range,
        ;
    } else {
        assert((a as int) % range == a + range) by (nonlinear_arith)
            requires
                -range < a < 0,
        ;
    }
}

} // verus!
