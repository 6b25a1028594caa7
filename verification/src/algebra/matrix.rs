//! The dense matrix type and its operations.

use super::{
    add_view, dot_acc, hadamard_view, lemma_row_major_bound, lemma_row_major_coords,
    grid_view, matmul_view, scale_view, sub_view, transpose_view, IndexError, MatView, ShapeError,
};
use crate::scalar::Scalar;
use vstd::prelude::*;

verus! {

/// A dense matrix: a flat row-major buffer plus its width and height.
/// Every constructor establishes, and every operation preserves, the
/// invariant `self@.wf()`: the buffer holds exactly `w * h` entries.
#[derive(Debug)]
pub struct Matrix<T> {
    data: Vec<T>,
    w: usize,
    h: usize,
}

impl<T> View for Matrix<T> {
    type V = MatView<T>;

    closed spec fn view(&self) -> MatView<T> {
        MatView { w: self.w as nat, h: self.h as nat, data: self.data@ }
    }
}

impl<T: Copy> Clone for Matrix<T> {
    fn clone(&self) -> (r: Self)
        ensures
            r@ == self@,
    {
        let mut data: Vec<T> = Vec::new();
        let mut n: usize = 0;
        while n < self.data.len()
            invariant
                n <= self.data.len(),
                data@ == self.data@.take(n as int),
            decreases self.data.len() - n,
        {
            data.push(self.data[n]);
            n += 1;
            proof {
                assert(data@ =~= self.data@.take(n as int));
            }
        }
        proof {
            assert(data@ =~= self.data@);
        }
        Matrix { data, w: self.w, h: self.h }
    }
}

impl<T: Copy> Matrix<T> {
    /// Builds a matrix from a flat row-major buffer; the buffer's length
    /// must be exactly `w * h`, else nothing is built.
    pub fn new(data: Vec<T>, w: usize, h: usize) -> (r: Result<Matrix<T>, ShapeError>)
        ensures
            match r {
                Ok(m) => {
                    &&& data@.len() == w * h
                    &&& m@ == (MatView { w: w as nat, h: h as nat, data: data@ })
                    &&& m@.wf()
                },
                Err(e) => {
                    &&& data@.len() != w * h
                    &&& e == (ShapeError::Len { w, h, actual: data.len() })
                },
            },
    {
        match w.checked_mul(h) {
            Some(p) if p == data.len() => Ok(Matrix { data, w, h }),
            _ => Err(ShapeError::Len { w, h, actual: data.len() }),
        }
    }

    /// Builds a matrix from a grid of rows, which must all have the first
    /// row's length; the first offending row is reported otherwise. With
    /// `row_major` the grid is taken as rows of the result; without, as
    /// its columns (the result is the grid's transpose).
    pub fn new_from_2d(data: Vec<Vec<T>>, row_major: bool) -> (r: Result<Matrix<T>, ShapeError>)
        ensures
            ({
                let rows = data@.map_values(|v: Vec<T>| v@);
                let w0: nat = if rows.len() == 0 {
                    0
                } else {
                    rows[0].len()
                };
                match r {
                    Ok(m) => {
                        &&& forall|k: int| 0 <= k < rows.len() ==> (#[trigger] rows[k]).len() == w0
                        &&& m@.wf()
                        &&& m@ == if row_major {
                            grid_view(rows)
                        } else {
                            transpose_view(grid_view(rows))
                        }
                    },
                    Err(e) => match e {
                        ShapeError::Row { row, expected, actual } => {
                            &&& (row as int) < rows.len()
                            &&& rows[row as int].len() == actual
                            &&& actual != w0
                            &&& expected == w0
                            &&& forall|k: int| 0 <= k < row ==> (#[trigger] rows[k]).len() == w0
                        },
                        _ => false,
                    },
                }
            }),
    {
        let ghost rows = data@.map_values(|v: Vec<T>| v@);
        let ghost g = grid_view(rows);
        let h = data.len();
        if h == 0 {
            let m = Matrix::from_raw(Vec::new(), 0, 0);
            proof {
                assert(m@ =~= g);
            }
            return Ok(m);
        }
        let w = data[0].len();
        let mut flat: Vec<T> = Vec::new();
        let mut i: usize = 0;
        while i < h
            invariant
                rows == data@.map_values(|v: Vec<T>| v@),
                g == grid_view(rows),
                h == rows.len(),
                h > 0,
                w == rows[0].len(),
                i <= h,
                forall|k: int| 0 <= k < i ==> (#[trigger] rows[k]).len() == w,
                flat@.len() == i * w,
                forall|n: int| 0 <= n < flat@.len() ==> flat@[n] == g.data[n],
            decreases h - i,
        {
            let row = &data[i];
            if row.len() != w {
                return Err(ShapeError::Row { row: i, expected: w, actual: row.len() });
            }
            let mut j: usize = 0;
            while j < w
                invariant
                    rows == data@.map_values(|v: Vec<T>| v@),
                    g == grid_view(rows),
                    h == rows.len(),
                    h > 0,
                    w == rows[0].len(),
                    i < h,
                    row@ == rows[i as int],
                    row@.len() == w,
                    j <= w,
                    flat@.len() == i * w + j,
                    forall|n: int| 0 <= n < flat@.len() ==> flat@[n] == g.data[n],
                decreases w - j,
            {
                flat.push(row[j]);
                proof {
                    let n: int = i as int * w + j;
                    lemma_row_major_bound(i as int, j as int, w as int, h as int);
                    lemma_row_major_coords(i as int, j as int, w as int);
                    assert(w as int * h == h as int * w) by (nonlinear_arith);
                    assert(g.data[n] == rows[n / w as int][n % w as int]);
                }
                j += 1;
            }
            i += 1;
            proof {
                assert(i * w == (i - 1) * w + w) by (nonlinear_arith);
            }
        }
        proof {
            assert(w * h == h * w) by (nonlinear_arith);
        }
        let m = Matrix::from_raw(flat, w, h);
        proof {
            assert(m@.data =~= g.data);
            assert(m@ =~= g);
        }
        if row_major {
            Ok(m)
        } else {
            Ok(m.new_transposed())
        }
    }

    /// Builds the matrix whose every entry is `val`.
    pub fn new_uniform(val: T, w: usize, h: usize) -> (r: Matrix<T>)
        requires
            w * h <= usize::MAX,
        ensures
            r@.w == w,
            r@.h == h,
            r@.wf(),
            forall|n: int| 0 <= n < r@.data.len() ==> r@.data[n] == val,
    {
        let len = w * h;
        let mut data: Vec<T> = Vec::new();
        let mut n: usize = 0;
        while n < len
            invariant
                n <= len,
                data@.len() == n,
                forall|k: int| 0 <= k < n ==> data@[k] == val,
            decreases len - n,
        {
            data.push(val);
            n += 1;
        }
        Matrix { data, w, h }
    }

    /// The width (number of columns).
    pub fn w(&self) -> (r: usize)
        ensures
            r == self@.w,
    {
        self.w
    }

    /// The height (number of rows).
    pub fn h(&self) -> (r: usize)
        ensures
            r == self@.h,
    {
        self.h
    }

    /// The flat row-major buffer.
    pub fn iter(&self) -> (r: &Vec<T>)
        ensures
            r@ == self@.data,
    {
        &self.data
    }

    /// The entry at `(row, col)`, or an error naming the index and the
    /// bounds when the index is out of range.
    pub fn index(&self, row: usize, col: usize) -> (r: Result<T, IndexError>)
        requires
            self@.wf(),
        ensures
            match r {
                Ok(v) => self@.in_bounds(row as int, col as int) && v == self@.ent(
                    row as int,
                    col as int,
                ),
                Err(e) => {
                    &&& !self@.in_bounds(row as int, col as int)
                    &&& e == (IndexError { row, col, w: self@.w as usize, h: self@.h as usize })
                },
            },
    {
        if row < self.h && col < self.w {
            Ok(self.ent_at(row, col))
        } else {
            Err(IndexError { row, col, w: self.w, h: self.h })
        }
    }

    /// Replaces the entry at `(row, col)`, or reports the bad index and
    /// leaves the matrix unchanged.
    pub fn set(&mut self, row: usize, col: usize, val: T) -> (r: Result<(), IndexError>)
        requires
            old(self)@.wf(),
        ensures
            final(self)@.wf(),
            match r {
                Ok(()) => {
                    &&& old(self)@.in_bounds(row as int, col as int)
                    &&& final(self)@ == (MatView {
                        data: old(self)@.data.update(row as int * old(self)@.w + col, val),
                        ..old(self)@
                    })
                },
                Err(e) => {
                    &&& !old(self)@.in_bounds(row as int, col as int)
                    &&& *final(self) == *old(self)
                    &&& e == (IndexError { row, col, w: old(self)@.w as usize, h: old(self)@.h as usize })
                },
            },
    {
        if row < self.h && col < self.w {
            let len = self.data.len();
            proof {
                lemma_row_major_bound(row as int, col as int, self.w as int, self.h as int);
                assert(self@.h * self@.w == self@.w * self@.h) by (nonlinear_arith);
                assert(row as int * self@.w + col < len);
            }
            let n = row * self.w + col;
            self.data.set(n, val);
            Ok(())
        } else {
            Err(IndexError { row, col, w: self.w, h: self.h })
        }
    }

    /// Builds a matrix from parts already known to agree.
    pub(crate) fn from_raw(data: Vec<T>, w: usize, h: usize) -> (r: Matrix<T>)
        requires
            data@.len() == w * h,
        ensures
            r@ == (MatView { w: w as nat, h: h as nat, data: data@ }),
            r@.wf(),
    {
        Matrix { data, w, h }
    }

    /// The entry at an index known to be in range.
    fn ent_at(&self, row: usize, col: usize) -> (r: T)
        requires
            self@.wf(),
            self@.in_bounds(row as int, col as int),
        ensures
            r == self@.ent(row as int, col as int),
    {
        let len = self.data.len();
        proof {
            lemma_row_major_bound(row as int, col as int, self.w as int, self.h as int);
            assert(self@.h * self@.w == self@.w * self@.h) by (nonlinear_arith);
            assert(row as int * self@.w + col < len);
        }
        self.data[row * self.w + col]
    }

    /// A fresh matrix holding this one's transpose.
    pub fn new_transposed(&self) -> (r: Matrix<T>)
        requires
            self@.wf(),
        ensures
            r@ == transpose_view(self@),
            r@.wf(),
    {
        let ghost t = transpose_view(self@);
        proof {
            assert(self@.w * self@.h == self@.h * self@.w) by (nonlinear_arith);
        }
        // Row `i` of the transpose is column `i` of this matrix, so the
        // transpose's buffer is filled by walking this matrix column-first.
        let mut data: Vec<T> = Vec::new();
        let mut i: usize = 0;
        while i < self.w()
            invariant
                self@.wf(),
                t == transpose_view(self@),
                i <= self@.w,
                data@.len() == i * self@.h,
                forall|n: int| 0 <= n < data@.len() ==> data@[n] == t.data[n],
            decreases self@.w - i,
        {
            let mut j: usize = 0;
            while j < self.h()
                invariant
                    self@.wf(),
                    t == transpose_view(self@),
                    i < self@.w,
                    j <= self@.h,
                    data@.len() == i * self@.h + j,
                    forall|n: int| 0 <= n < data@.len() ==> data@[n] == t.data[n],
                decreases self@.h - j,
            {
                data.push(self.ent_at(j, i));
                proof {
                    let n: int = i as int * self@.h + j;
                    lemma_row_major_bound(i as int, j as int, self@.h as int, self@.w as int);
                    lemma_row_major_coords(i as int, j as int, self@.h as int);
                    assert(t.data[n] == self@.data[(n % self@.h as int) * self@.w + n / self@.h as int]);
                }
                j += 1;
            }
            i += 1;
            proof {
                assert(i * self@.h == (i - 1) * self@.h + self@.h) by (nonlinear_arith);
            }
        }
        let r = Matrix { data, w: self.h, h: self.w };
        proof {
            assert(r@.data =~= t.data);
            assert(r@ =~= t);
        }
        r
    }
}

impl<T: Copy> Matrix<T> {
    /// Swaps the shape in place and reorders the buffer so that the entry
    /// at `(i, j)` afterwards is the entry that was at `(j, i)`. When
    /// either new dimension is 1 the buffer is already in order (a
    /// vector's transpose is a pure shape relabelling) and only the shape
    /// changes.
    pub fn transpose(&mut self)
        requires
            old(self)@.wf(),
        ensures
            final(self)@ == transpose_view(old(self)@),
            final(self)@.wf(),
    {
        if self.w == 1 || self.h == 1 {
            let ghost before = self@;
            let tmp = self.w;
            self.w = self.h;
            self.h = tmp;
            proof {
                let t = transpose_view(before);
                assert(before.w * before.h == before.h * before.w) by (nonlinear_arith);
                assert forall|n: int| 0 <= n < t.data.len() implies t.data[n] == before.data[n] by {
                    if before.w == 1 {
                        assert(n < before.h) by (nonlinear_arith)
                            requires
                                0 <= n < before.w * before.h,
                                before.w == 1,
                        ;
                        vstd::arithmetic::div_mod::lemma_small_mod(
                            n as nat,
                            before.h as nat,
                        );
                        vstd::arithmetic::div_mod::lemma_basic_div(n, before.h as int);
                        assert((n % before.h as int) * before.w + n / before.h as int == n);
                    } else {
                        assert(n % 1int == 0 && n / 1int == n);
                        assert((n % before.h as int) * before.w + n / before.h as int == n);
                    }
                }
                assert(self@ =~= t);
            }
        } else {
            let t = self.new_transposed();
            *self = t;
        }
    }

    /// Applies `function` to every entry, yielding a fresh matrix of the
    /// same shape whose entry `n` is an output of `function` on this
    /// matrix's entry `n`.
    pub fn apply<F: Fn(T) -> T>(&self, function: F) -> (r: Matrix<T>)
        requires
            self@.wf(),
            forall|n: int| 0 <= n < self@.data.len() ==> call_requires(function, (self@.data[n],)),
        ensures
            r@.w == self@.w,
            r@.h == self@.h,
            r@.wf(),
            forall|n: int|
                0 <= n < r@.data.len() ==> call_ensures(
                    function,
                    (self@.data[n],),
                    #[trigger] r@.data[n],
                ),
    {
        let mut data: Vec<T> = Vec::new();
        let mut n: usize = 0;
        while n < self.data.len()
            invariant
                self@.wf(),
                n <= self@.data.len(),
                data@.len() == n,
                forall|k: int|
                    0 <= k < self@.data.len() ==> call_requires(function, (self@.data[k],)),
                forall|k: int|
                    0 <= k < n ==> call_ensures(function, (self@.data[k],), #[trigger] data@[k]),
            decreases self@.data.len() - n,
        {
            data.push(function(self.data[n]));
            n += 1;
        }
        Matrix { data, w: self.w, h: self.h }
    }

    /// A fresh 1-row matrix holding row `i`, or an error naming the bad
    /// row index.
    pub fn clone_row(&self, i: usize) -> (r: Result<Matrix<T>, IndexError>)
        requires
            self@.wf(),
        ensures
            match r {
                Ok(m) => {
                    &&& i < self@.h
                    &&& m@ == (MatView {
                        w: self@.w,
                        h: 1nat,
                        data: self@.data.subrange(
                            i as int * self@.w,
                            i as int * self@.w + self@.w,
                        ),
                    })
                    &&& m@.wf()
                },
                Err(e) => {
                    &&& i >= self@.h
                    &&& e == (IndexError { row: i, col: 0, w: self@.w as usize, h: self@.h as usize })
                },
            },
    {
        if i >= self.h {
            return Err(IndexError { row: i, col: 0, w: self.w, h: self.h });
        }
        let mut data: Vec<T> = Vec::new();
        let mut j: usize = 0;
        while j < self.w()
            invariant
                self@.wf(),
                i < self@.h,
                j <= self@.w,
                data@.len() == j,
                forall|k: int| 0 <= k < j ==> data@[k] == self@.data[i as int * self@.w + k],
            decreases self@.w - j,
        {
            data.push(self.ent_at(i, j));
            j += 1;
        }
        let m = Matrix::from_raw(data, self.w, 1);
        proof {
            assert(i as int * self@.w + self@.w <= self@.w * self@.h) by (nonlinear_arith)
                requires
                    0 <= i < self@.h,
            ;
            assert(m@.data =~= self@.data.subrange(
                i as int * self@.w,
                i as int * self@.w + self@.w,
            ));
        }
        Ok(m)
    }
}

impl<T: Scalar> Matrix<T> {
    /// The elementwise sum; operands of different shapes produce an
    /// error, never a value.
    pub fn add(&self, rhs: &Matrix<T>) -> (r: Result<Matrix<T>, ShapeError>)
        requires
            self@.wf(),
            rhs@.wf(),
        ensures
            match r {
                Ok(m) => self@.same_shape(rhs@) && m@ == add_view(self@, rhs@) && m@.wf(),
                Err(e) => {
                    &&& !self@.same_shape(rhs@)
                    &&& e == (ShapeError::Dims {
                        left_w: self@.w as usize,
                        left_h: self@.h as usize,
                        right_w: rhs@.w as usize,
                        right_h: rhs@.h as usize,
                    })
                },
            },
    {
        if self.w != rhs.w || self.h != rhs.h {
            return Err(ShapeError::Dims {
                left_w: self.w,
                left_h: self.h,
                right_w: rhs.w,
                right_h: rhs.h,
            });
        }
        let mut data: Vec<T> = Vec::new();
        let mut n: usize = 0;
        while n < self.data.len()
            invariant
                self@.wf(),
                rhs@.wf(),
                self@.same_shape(rhs@),
                n <= self@.data.len(),
                data@.len() == n,
                forall|k: int|
                    0 <= k < n ==> #[trigger] data@[k] == self@.data[k].plus_spec(rhs@.data[k]),
            decreases self@.data.len() - n,
        {
            data.push(self.data[n].plus(rhs.data[n]));
            n += 1;
        }
        let m = Matrix { data, w: self.w, h: self.h };
        proof {
            assert(m@.data =~= add_view(self@, rhs@).data);
            assert(m@ =~= add_view(self@, rhs@));
        }
        Ok(m)
    }

    /// The elementwise difference; operands of different shapes produce
    /// an error, never a value.
    pub fn sub(&self, rhs: &Matrix<T>) -> (r: Result<Matrix<T>, ShapeError>)
        requires
            self@.wf(),
            rhs@.wf(),
        ensures
            match r {
                Ok(m) => self@.same_shape(rhs@) && m@ == sub_view(self@, rhs@) && m@.wf(),
                Err(e) => {
                    &&& !self@.same_shape(rhs@)
                    &&& e == (ShapeError::Dims {
                        left_w: self@.w as usize,
                        left_h: self@.h as usize,
                        right_w: rhs@.w as usize,
                        right_h: rhs@.h as usize,
                    })
                },
            },
    {
        if self.w != rhs.w || self.h != rhs.h {
            return Err(ShapeError::Dims {
                left_w: self.w,
                left_h: self.h,
                right_w: rhs.w,
                right_h: rhs.h,
            });
        }
        let mut data: Vec<T> = Vec::new();
        let mut n: usize = 0;
        while n < self.data.len()
            invariant
                self@.wf(),
                rhs@.wf(),
                self@.same_shape(rhs@),
                n <= self@.data.len(),
                data@.len() == n,
                forall|k: int|
                    0 <= k < n ==> #[trigger] data@[k] == self@.data[k].minus_spec(rhs@.data[k]),
            decreases self@.data.len() - n,
        {
            data.push(self.data[n].minus(rhs.data[n]));
            n += 1;
        }
        let m = Matrix { data, w: self.w, h: self.h };
        proof {
            assert(m@.data =~= sub_view(self@, rhs@).data);
            assert(m@ =~= sub_view(self@, rhs@));
        }
        Ok(m)
    }

    /// The Hadamard (elementwise) product; operands of different shapes
    /// produce an error, never a value.
    pub fn mul_element_wise(&self, rhs: Matrix<T>) -> (r: Result<Matrix<T>, ShapeError>)
        requires
            self@.wf(),
            rhs@.wf(),
        ensures
            match r {
                Ok(m) => self@.same_shape(rhs@) && m@ == hadamard_view(self@, rhs@) && m@.wf(),
                Err(e) => {
                    &&& !self@.same_shape(rhs@)
                    &&& e == (ShapeError::Dims {
                        left_w: self@.w as usize,
                        left_h: self@.h as usize,
                        right_w: rhs@.w as usize,
                        right_h: rhs@.h as usize,
                    })
                },
            },
    {
        if self.w != rhs.w || self.h != rhs.h {
            return Err(ShapeError::Dims {
                left_w: self.w,
                left_h: self.h,
                right_w: rhs.w,
                right_h: rhs.h,
            });
        }
        let mut data: Vec<T> = Vec::new();
        let mut n: usize = 0;
        while n < self.data.len()
            invariant
                self@.wf(),
                rhs@.wf(),
                self@.same_shape(rhs@),
                n <= self@.data.len(),
                data@.len() == n,
                forall|k: int|
                    0 <= k < n ==> #[trigger] data@[k] == self@.data[k].times_spec(rhs@.data[k]),
            decreases self@.data.len() - n,
        {
            data.push(self.data[n].times(rhs.data[n]));
            n += 1;
        }
        let m = Matrix { data, w: self.w, h: self.h };
        proof {
            assert(m@.data =~= hadamard_view(self@, rhs@).data);
            assert(m@ =~= hadamard_view(self@, rhs@));
        }
        Ok(m)
    }

    /// Every entry scaled by the constant `c`; the shape is preserved.
    pub fn scale(&self, c: T) -> (r: Matrix<T>)
        requires
            self@.wf(),
        ensures
            r@ == scale_view(self@, c),
            r@.wf(),
    {
        let mut data: Vec<T> = Vec::new();
        let mut n: usize = 0;
        while n < self.data.len()
            invariant
                self@.wf(),
                n <= self@.data.len(),
                data@.len() == n,
                forall|k: int| 0 <= k < n ==> data@[k] == self@.data[k].times_spec(c),
            decreases self@.data.len() - n,
        {
            data.push(self.data[n].times(c));
            n += 1;
        }
        let m = Matrix { data, w: self.w, h: self.h };
        proof {
            assert(m@.data =~= scale_view(self@, c).data);
            assert(m@ =~= scale_view(self@, c));
        }
        m
    }

    /// The matrix product: requires the inner dimensions to agree
    /// (`self.w == rhs.h`), else an error and never a value. The product
    /// of an `h x k` and a `k x w` matrix is `h x w`; its entry `(i, j)`
    /// is the sum over the inner index of `self(i, n) * rhs(n, j)`,
    /// accumulated in index order starting from zero.
    pub fn matmul(&self, rhs: &Matrix<T>) -> (r: Result<Matrix<T>, ShapeError>)
        requires
            self@.wf(),
            rhs@.wf(),
            self@.h * rhs@.w <= usize::MAX,
        ensures
            match r {
                Ok(m) => self@.w == rhs@.h && m@ == matmul_view(self@, rhs@) && m@.wf(),
                Err(e) => {
                    &&& self@.w != rhs@.h
                    &&& e == (ShapeError::Inner {
                        left_w: self@.w as usize,
                        right_h: rhs@.h as usize,
                    })
                },
            },
    {
        if self.w != rhs.h {
            return Err(ShapeError::Inner { left_w: self.w, right_h: rhs.h });
        }
        let ghost o = matmul_view(self@, rhs@);
        let mut data: Vec<T> = Vec::new();
        let mut i: usize = 0;
        while i < self.h()
            invariant
                self@.wf(),
                rhs@.wf(),
                self@.w == rhs@.h,
                self@.h * rhs@.w <= usize::MAX,
                o == matmul_view(self@, rhs@),
                i <= self@.h,
                data@.len() == i * rhs@.w,
                forall|n: int| 0 <= n < data@.len() ==> data@[n] == o.data[n],
            decreases self@.h - i,
        {
            let mut j: usize = 0;
            while j < rhs.w()
                invariant
                    self@.wf(),
                    rhs@.wf(),
                    self@.w == rhs@.h,
                    self@.h * rhs@.w <= usize::MAX,
                    o == matmul_view(self@, rhs@),
                    i < self@.h,
                    j <= rhs@.w,
                    data@.len() == i * rhs@.w + j,
                    forall|n: int| 0 <= n < data@.len() ==> data@[n] == o.data[n],
                decreases rhs@.w - j,
            {
                let mut acc = T::zero();
                let mut k: usize = 0;
                while k < rhs.h()
                    invariant
                        self@.wf(),
                        rhs@.wf(),
                        self@.w == rhs@.h,
                        i < self@.h,
                        j < rhs@.w,
                        k <= rhs@.h,
                        acc == dot_acc(self@, rhs@, i as int, j as int, k as nat),
                    decreases rhs@.h - k,
                {
                    acc = acc.plus(self.ent_at(i, k).times(rhs.ent_at(k, j)));
                    k += 1;
                }
                proof {
                    lemma_row_major_bound(i as int, j as int, rhs@.w as int, self@.h as int);
                    lemma_row_major_coords(i as int, j as int, rhs@.w as int);
                }
                data.push(acc);
                j += 1;
            }
            i += 1;
            proof {
                assert(i * rhs@.w == (i - 1) * rhs@.w + rhs@.w) by (nonlinear_arith);
            }
        }
        let w = rhs.w;
        let h = self.h;
        proof {
            assert(data@.len() == o.data.len());
            assert(data@ =~= o.data);
            assert(self@.h * rhs@.w == rhs@.w * self@.h) by (nonlinear_arith);
        }
        let m = Matrix::from_raw(data, w, h);
        proof {
            assert(m@ =~= o);
        }
        Ok(m)
    }
}

impl Matrix<i64> {
    /// Every entry drawn independently, uniformly from `[low, high)`.
    pub fn random(low: i64, high: i64, w: usize, h: usize) -> (r: Matrix<i64>)
        requires
            low < high,
            w * h <= usize::MAX,
        ensures
            r@.w == w,
            r@.h == h,
            r@.wf(),
            forall|n: int| 0 <= n < r@.data.len() ==> low <= #[trigger] r@.data[n] < high,
    {
        let len = w * h;
        let mut data: Vec<i64> = Vec::new();
        let mut n: usize = 0;
        while n < len
            invariant
                low < high,
                n <= len,
                data@.len() == n,
                forall|k: int| 0 <= k < n ==> low <= #[trigger] data@[k] < high,
            decreases len - n,
        {
            data.push(crate::scalar::rand_in_range(low, high));
            n += 1;
        }
        Matrix { data, w, h }
    }
}

} // verus!
