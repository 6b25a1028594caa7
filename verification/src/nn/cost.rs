//! Cost strategies: a scalar loss over matched-shape prediction/target
//! pairs, with its gradient with respect to the prediction.

use crate::algebra::{MatView, Matrix};
use crate::scalar::Scalar;
use vstd::prelude::*;

verus! {

/// A scalar loss `calc` over a matched-shape prediction/target pair,
/// together with `prime`, the same-shaped gradient of the loss with
/// respect to the prediction.
pub trait Cost<T: Scalar> {
    /// The mathematical loss.
    spec fn calc_spec(pred: MatView<T>, actual: MatView<T>) -> T;

    /// The mathematical gradient of the loss with respect to `pred`.
    spec fn prime_spec(pred: MatView<T>, actual: MatView<T>) -> MatView<T>;

    fn calc(pred: &Matrix<T>, actual: &Matrix<T>) -> (r: T)
        requires
            pred@.wf(),
            actual@.wf(),
            pred@.same_shape(actual@),
        ensures
            r == Self::calc_spec(pred@, actual@),
    ;

    fn prime(pred: &Matrix<T>, actual: &Matrix<T>) -> (r: Matrix<T>)
        requires
            pred@.wf(),
            actual@.wf(),
            pred@.same_shape(actual@),
        ensures
            r@ == Self::prime_spec(pred@, actual@),
            r@.wf(),
            r@.same_shape(pred@),
    ;
}

/// The running sum, in index order, of the first `k` squared differences
/// `(p[n] - a[n])^2`, starting from zero: the fold `SumSquared::calc`
/// computes.
pub open spec fn sum_squared<T: Scalar>(p: Seq<T>, a: Seq<T>, k: nat) -> T
    decreases k,
{
    if k == 0 {
        T::zero_spec()
    } else {
        sum_squared(p, a, (k - 1) as nat).plus_spec(
            p[k - 1].minus_spec(a[k - 1]).times_spec(p[k - 1].minus_spec(a[k - 1])),
        )
    }
}

/// The sum of squared differences: `calc` is the sum of `(p - a)^2` over
/// matching positions, `prime` is entrywise `2 * (p - a)`.
pub struct SumSquared {}

impl<T: Scalar> Cost<T> for SumSquared {
    open spec fn calc_spec(pred: MatView<T>, actual: MatView<T>) -> T {
        sum_squared(pred.data, actual.data, pred.data.len())
    }

    open spec fn prime_spec(pred: MatView<T>, actual: MatView<T>) -> MatView<T> {
        MatView {
            w: pred.w,
            h: pred.h,
            data: Seq::new(
                pred.data.len(),
                |n: int|
                    T::from_count_spec(2).times_spec(pred.data[n].minus_spec(actual.data[n])),
            ),
        }
    }

    fn calc(pred: &Matrix<T>, actual: &Matrix<T>) -> (r: T)
    {
        let p = pred.iter();
        let a = actual.iter();
        let mut acc = T::zero();
        let mut n: usize = 0;
        while n < p.len()
            invariant
                p@ == pred@.data,
                a@ == actual@.data,
                p@.len() == a@.len(),
                n <= p@.len(),
                acc == sum_squared(p@, a@, n as nat),
            decreases p@.len() - n,
        {
            let d = p[n].minus(a[n]);
            acc = acc.plus(d.times(d));
            n += 1;
        }
        acc
    }

    fn prime(pred: &Matrix<T>, actual: &Matrix<T>) -> (r: Matrix<T>)
    {
        let ghost o = <SumSquared as Cost<T>>::prime_spec(pred@, actual@);
        let p = pred.iter();
        let a = actual.iter();
        let two = T::from_count(2);
        let mut data: Vec<T> = Vec::new();
        let mut n: usize = 0;
        while n < p.len()
            invariant
                p@ == pred@.data,
                a@ == actual@.data,
                p@.len() == a@.len(),
                n <= p@.len(),
                data@.len() == n,
                two == T::from_count_spec(2),
                forall|k: int|
                    0 <= k < n ==> #[trigger] data@[k] == T::from_count_spec(2).times_spec(
                        p@[k].minus_spec(a@[k]),
                    ),
            decreases p@.len() - n,
        {
            data.push(two.times(p[n].minus(a[n])));
            n += 1;
        }
        let m = Matrix::from_raw(data, pred.w(), pred.h());
        proof {
            assert(m@.data =~= o.data);
            assert(m@ =~= o);
        }
        m
    }
}

/// The loss of any prediction measured against itself is zero: every
/// squared difference vanishes, and the running sum stays at zero. The
/// hypotheses ask of the scalar that subtracting a value from itself
/// gives zero, that zero annihilates on the right, and that adding zero
/// changes nothing (as the crate's `i64` instance does).
pub proof fn lemma_sum_squared_self_zero<T: Scalar>(p: Seq<T>, k: nat)
    requires
        forall|v: T| #[trigger] v.minus_spec(v) == T::zero_spec(),
        forall|v: T| #[trigger] v.times_spec(T::zero_spec()) == T::zero_spec(),
        forall|v: T| #[trigger] v.plus_spec(T::zero_spec()) == v,
    ensures
        sum_squared(p, p, k) == T::zero_spec(),
    decreases k,
{
    if k > 0 {
        lemma_sum_squared_self_zero::<T>(p, (k - 1) as nat);
    }
}

/// The law above, stated of the cost strategy itself: `SumSquared::calc`
/// on a prediction and that same prediction returns the scalar zero, for
/// any scalar meeting the same hypotheses.
pub proof fn lemma_cost_self_zero<T: Scalar>(pred: MatView<T>)
    requires
        forall|v: T| #[trigger] v.minus_spec(v) == T::zero_spec(),
        forall|v: T| #[trigger] v.times_spec(T::zero_spec()) == T::zero_spec(),
        forall|v: T| #[trigger] v.plus_spec(T::zero_spec()) == v,
    ensures
        <SumSquared as Cost<T>>::calc_spec(pred, pred) == T::zero_spec(),
{
    lemma_sum_squared_self_zero::<T>(pred.data, pred.data.len());
}

/// The self-cost law at the crate's own scalar, with no hypotheses:
/// `SumSquared` measures any `i64` prediction against itself as zero.
pub proof fn lemma_cost_self_zero_i64(pred: MatView<i64>)
    ensures
        <SumSquared as Cost<i64>>::calc_spec(pred, pred) == 0i64,
{
    crate::scalar::lemma_i64_scalar_laws();
    lemma_cost_self_zero::<i64>(pred);
}

} // verus!
