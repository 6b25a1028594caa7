//! The dense vector type and its operations.

use super::{IndexError, MatView, Matrix, ShapeError};
use crate::scalar::Scalar;
use vstd::prelude::*;

verus! {

/// The running sum, in index order, of the first `k` products
/// `a[n] * b[n]`, starting from zero: the fold `inner_prod` computes.
pub open spec fn dot_seq<T: Scalar>(a: Seq<T>, b: Seq<T>, k: nat) -> T
    decreases k,
{
    if k == 0 {
        T::zero_spec()
    } else {
        dot_seq(a, b, (k - 1) as nat).plus_spec(a[k - 1].times_spec(b[k - 1]))
    }
}

/// The outer product of two sequences: entry `(i, j)` is `a[i] * b[j]`,
/// with one row per entry of `a` and one column per entry of `b`.
pub open spec fn outer_view<T: Scalar>(a: Seq<T>, b: Seq<T>) -> MatView<T> {
    MatView {
        w: b.len(),
        h: a.len(),
        data: Seq::new(
            a.len() * b.len(),
            |n: int| a[n / b.len() as int].times_spec(b[n % b.len() as int]),
        ),
    }
}

/// A dense vector: a flat buffer plus its length. The invariant
/// `self.wf()` says the recorded shape is the buffer's length.
#[derive(Debug)]
pub struct Vector<T> {
    data: Vec<T>,
    shape: usize,
}

impl<T> View for Vector<T> {
    type V = Seq<T>;

    closed spec fn view(&self) -> Seq<T> {
        self.data@
    }
}

impl<T> Vector<T> {
    /// The recorded shape is the buffer's length.
    pub closed spec fn wf(self) -> bool {
        self.shape == self.data@.len()
    }
}

impl<T: Copy> Vector<T> {
    /// Wraps a buffer as a vector; its shape is the buffer's length.
    pub fn new(v: Vec<T>) -> (r: Vector<T>)
        ensures
            r@ == v@,
            r.wf(),
    {
        let shape = v.len();
        Vector { data: v, shape }
    }

    /// Builds the vector whose every entry is `v`.
    pub fn new_uniform(v: T, shape: usize) -> (r: Vector<T>)
        ensures
            r@.len() == shape,
            forall|n: int| 0 <= n < shape ==> r@[n] == v,
            r.wf(),
    {
        let mut data: Vec<T> = Vec::new();
        let mut n: usize = 0;
        while n < shape
            invariant
                n <= shape,
                data@.len() == n,
                forall|k: int| 0 <= k < n ==> data@[k] == v,
            decreases shape - n,
        {
            data.push(v);
            n += 1;
        }
        Vector { data, shape }
    }

    /// The number of entries.
    pub fn shape(&self) -> (r: usize)
        requires
            self.wf(),
        ensures
            r == self@.len(),
    {
        self.shape
    }

    /// The flat buffer.
    pub fn iter(&self) -> (r: &Vec<T>)
        ensures
            r@ == self@,
    {
        &self.data
    }

    /// A copy of this vector.
    pub fn to_vec(&self) -> (r: Vector<T>)
        requires
            self.wf(),
        ensures
            r@ == self@,
            r.wf(),
    {
        let mut data: Vec<T> = Vec::new();
        let mut n: usize = 0;
        while n < self.data.len()
            invariant
                n <= self.data.len(),
                data@ == self.data@.take(n as int),
            decreases self.data.len() - n,
        {
            data.push(self.data[n]);
            n += 1;
            proof {
                assert(data@ =~= self.data@.take(n as int));
            }
        }
        proof {
            assert(data@ =~= self.data@);
        }
        let shape = data.len();
        Vector { data, shape }
    }

    /// The entry at `n`, or an error naming the index and the bound.
    pub fn index(&self, n: usize) -> (r: Result<T, IndexError>)
        requires
            self.wf(),
        ensures
            match r {
                Ok(v) => n < self@.len() && v == self@[n as int],
                Err(e) => {
                    &&& n >= self@.len()
                    &&& e == (IndexError { row: 0, col: n, w: self@.len() as usize, h: 1 })
                },
            },
    {
        if n < self.data.len() {
            Ok(self.data[n])
        } else {
            Err(IndexError { row: 0, col: n, w: self.shape, h: 1 })
        }
    }

    /// Applies `function` to every entry, yielding a fresh vector whose
    /// entry `n` is an output of `function` on this vector's entry `n`.
    pub fn apply<F: Fn(T) -> T>(&self, function: F) -> (r: Vector<T>)
        requires
            self.wf(),
            forall|n: int| 0 <= n < self@.len() ==> call_requires(function, (self@[n],)),
        ensures
            r@.len() == self@.len(),
            r.wf(),
            forall|n: int|
                0 <= n < r@.len() ==> call_ensures(function, (self@[n],), #[trigger] r@[n]),
    {
        let mut data: Vec<T> = Vec::new();
        let mut n: usize = 0;
        while n < self.data.len()
            invariant
                self.wf(),
                n <= self@.len(),
                data@.len() == n,
                forall|k: int| 0 <= k < self@.len() ==> call_requires(function, (self@[k],)),
                forall|k: int|
                    0 <= k < n ==> call_ensures(function, (self@[k],), #[trigger] data@[k]),
            decreases self@.len() - n,
        {
            data.push(function(self.data[n]));
            n += 1;
        }
        let shape = data.len();
        Vector { data, shape }
    }
}

impl<T: Scalar> Vector<T> {
    /// The elementwise product of two vectors of the same shape; vectors
    /// of different shapes produce an error, never a value.
    pub fn mul_element_wise(&self, rhs: Vector<T>) -> (r: Result<Vector<T>, ShapeError>)
        requires
            self.wf(),
            rhs.wf(),
        ensures
            match r {
                Ok(v) => {
                    &&& self@.len() == rhs@.len()
                    &&& v.wf()
                    &&& v@.len() == self@.len()
                    &&& forall|n: int|
                        0 <= n < v@.len() ==> #[trigger] v@[n] == self@[n].times_spec(rhs@[n])
                },
                Err(e) => {
                    &&& self@.len() != rhs@.len()
                    &&& e == (ShapeError::Dims {
                        left_w: self@.len() as usize,
                        left_h: 1,
                        right_w: rhs@.len() as usize,
                        right_h: 1,
                    })
                },
            },
    {
        if self.shape != rhs.shape {
            return Err(ShapeError::Dims {
                left_w: self.shape,
                left_h: 1,
                right_w: rhs.shape,
                right_h: 1,
            });
        }
        let mut data: Vec<T> = Vec::new();
        let mut n: usize = 0;
        while n < self.data.len()
            invariant
                self.wf(),
                rhs.wf(),
                self@.len() == rhs@.len(),
                n <= self@.len(),
                data@.len() == n,
                forall|k: int| 0 <= k < n ==> #[trigger] data@[k] == self@[k].times_spec(rhs@[k]),
            decreases self@.len() - n,
        {
            data.push(self.data[n].times(rhs.data[n]));
            n += 1;
        }
        let shape = data.len();
        Ok(Vector { data, shape })
    }

    /// The elementwise sum of two vectors of the same shape; vectors of
    /// different shapes produce an error, never a value.
    pub fn add(&self, rhs: &Vector<T>) -> (r: Result<Vector<T>, ShapeError>)
        requires
            self.wf(),
            rhs.wf(),
        ensures
            match r {
                Ok(v) => {
                    &&& self@.len() == rhs@.len()
                    &&& v.wf()
                    &&& v@.len() == self@.len()
                    &&& forall|n: int|
                        0 <= n < v@.len() ==> #[trigger] v@[n] == self@[n].plus_spec(rhs@[n])
                },
                Err(e) => {
                    &&& self@.len() != rhs@.len()
                    &&& e == (ShapeError::Dims {
                        left_w: self@.len() as usize,
                        left_h: 1,
                        right_w: rhs@.len() as usize,
                        right_h: 1,
                    })
                },
            },
    {
        if self.shape != rhs.shape {
            return Err(ShapeError::Dims {
                left_w: self.shape,
                left_h: 1,
                right_w: rhs.shape,
                right_h: 1,
            });
        }
        let mut data: Vec<T> = Vec::new();
        let mut n: usize = 0;
        while n < self.data.len()
            invariant
                self.wf(),
                rhs.wf(),
                self@.len() == rhs@.len(),
                n <= self@.len(),
                data@.len() == n,
                forall|k: int| 0 <= k < n ==> #[trigger] data@[k] == self@[k].plus_spec(rhs@[k]),
            decreases self@.len() - n,
        {
            data.push(self.data[n].plus(rhs.data[n]));
            n += 1;
        }
        let shape = data.len();
        Ok(Vector { data, shape })
    }

    /// The inner product: the sum, in index order, of the entrywise
    /// products of two vectors of the same shape. Vectors of different
    /// shapes produce an error, never a value.
    pub fn inner_prod(&self, rhs: Vector<T>) -> (r: Result<T, ShapeError>)
        requires
            self.wf(),
            rhs.wf(),
        ensures
            match r {
                Ok(v) => self@.len() == rhs@.len() && v == dot_seq(self@, rhs@, self@.len()),
                Err(e) => {
                    &&& self@.len() != rhs@.len()
                    &&& e == (ShapeError::Dims {
                        left_w: self@.len() as usize,
                        left_h: 1,
                        right_w: rhs@.len() as usize,
                        right_h: 1,
                    })
                },
            },
    {
        if self.shape != rhs.shape {
            return Err(ShapeError::Dims {
                left_w: self.shape,
                left_h: 1,
                right_w: rhs.shape,
                right_h: 1,
            });
        }
        let mut acc = T::zero();
        let mut n: usize = 0;
        while n < self.data.len()
            invariant
                self.wf(),
                rhs.wf(),
                self@.len() == rhs@.len(),
                n <= self@.len(),
                acc == dot_seq(self@, rhs@, n as nat),
            decreases self@.len() - n,
        {
            acc = acc.plus(self.data[n].times(rhs.data[n]));
            n += 1;
        }
        Ok(acc)
    }

    /// The outer product: a matrix with one row per entry of this vector
    /// and one column per entry of `rhs`, whose entry `(i, j)` is
    /// `self[i] * rhs[j]`. No shapes are required beyond both operands
    /// being one-dimensional.
    pub fn outer_prod(&self, rhs: Vector<T>) -> (r: Matrix<T>)
        requires
            self.wf(),
            rhs.wf(),
            self@.len() * rhs@.len() <= usize::MAX,
        ensures
            r@ == outer_view(self@, rhs@),
            r@.wf(),
    {
        let ghost o = outer_view(self@, rhs@);
        let mut data: Vec<T> = Vec::new();
        let mut i: usize = 0;
        while i < self.data.len()
            invariant
                self.wf(),
                rhs.wf(),
                o == outer_view(self@, rhs@),
                self@.len() * rhs@.len() <= usize::MAX,
                i <= self@.len(),
                data@.len() == i * rhs@.len(),
                forall|n: int| 0 <= n < data@.len() ==> data@[n] == o.data[n],
            decreases self@.len() - i,
        {
            let mut j: usize = 0;
            while j < rhs.data.len()
                invariant
                    self.wf(),
                    rhs.wf(),
                    o == outer_view(self@, rhs@),
                    self@.len() * rhs@.len() <= usize::MAX,
                    i < self@.len(),
                    j <= rhs@.len(),
                    data@.len() == i * rhs@.len() + j,
                    forall|n: int| 0 <= n < data@.len() ==> data@[n] == o.data[n],
                decreases rhs@.len() - j,
            {
                proof {
                    super::lemma_row_major_bound(
                        i as int,
                        j as int,
                        rhs@.len() as int,
                        self@.len() as int,
                    );
                    super::lemma_row_major_coords(i as int, j as int, rhs@.len() as int);
                }
                data.push(self.data[i].times(rhs.data[j]));
                j += 1;
            }
            i += 1;
            proof {
                assert(i * rhs@.len() == (i - 1) * rhs@.len() + rhs@.len()) by (nonlinear_arith);
            }
        }
        let w = rhs.data.len();
        let h = self.data.len();
        proof {
            assert(h * w == w * h) by (nonlinear_arith);
            assert(data@ =~= o.data);
        }
        let m = Matrix::from_raw(data, w, h);
        proof {
            assert(m@ =~= o);
        }
        m
    }
}

} // verus!
