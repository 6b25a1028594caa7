//! Dense matrix and vector algebra with strict shape contracts.
//!
//! A matrix owns a flat row-major buffer together with its width and
//! height; the logical entry `(row, col)` lives at buffer position
//! `row * w + col`. The mathematical model of a matrix is [`MatView`],
//! and every operation's contract states the resulting model exactly.

mod matrix;
mod vector;

pub use matrix::Matrix;
pub use vector::{dot_seq, outer_view, Vector};

use crate::scalar::Scalar;
use vstd::prelude::*;

verus! {

/// A shape mismatch, naming the offending dimensions.
#[derive(Clone, Copy, Debug, PartialEq, Eq, Structural)]
pub enum ShapeError {
    /// A buffer whose length is not `w * h`.
    Len { w: usize, h: usize, actual: usize },
    /// Two operands of an elementwise operation with different shapes.
    Dims { left_w: usize, left_h: usize, right_w: usize, right_h: usize },
    /// A multiplication whose inner dimensions disagree.
    Inner { left_w: usize, right_h: usize },
    /// A nested row whose length differs from the first row's.
    Row { row: usize, expected: usize, actual: usize },
}

/// An out-of-range index, naming the index and the valid bounds.
#[derive(Clone, Copy, Debug, PartialEq, Eq, Structural)]
pub struct IndexError {
    pub row: usize,
    pub col: usize,
    pub w: usize,
    pub h: usize,
}

/// The mathematical model of a matrix: a flat row-major sequence of
/// entries together with the width and height it is to be read at.
#[verifier::ext_equal]
pub struct MatView<T> {
    pub w: nat,
    pub h: nat,
    pub data: Seq<T>,
}

impl<T> MatView<T> {
    /// The buffer holds exactly one entry per position of the shape.
    pub open spec fn wf(self) -> bool {
        self.data.len() == self.w * self.h
    }

    /// The entry at `(row i, column j)`, row-major.
    pub open spec fn ent(self, i: int, j: int) -> T {
        self.data[i * self.w + j]
    }

    /// Whether `(i, j)` addresses an entry.
    pub open spec fn in_bounds(self, i: int, j: int) -> bool {
        0 <= i < self.h && 0 <= j < self.w
    }

    /// Two models of equal shape.
    pub open spec fn same_shape(self, other: MatView<T>) -> bool {
        self.w == other.w && self.h == other.h
    }
}

/// Anything with the shape of a matrix: a width, a height, and their
/// product as its entry count.
pub trait MatLike {
    /// The width, as the model sees it.
    spec fn w_spec(&self) -> nat;

    /// The height, as the model sees it.
    spec fn h_spec(&self) -> nat;

    fn w(&self) -> (r: usize)
        ensures
            r == self.w_spec(),
    ;

    fn h(&self) -> (r: usize)
        ensures
            r == self.h_spec(),
    ;

    fn len(&self) -> (r: usize)
        requires
            self.w_spec() * self.h_spec() <= usize::MAX,
        ensures
            r == self.w_spec() * self.h_spec(),
    ;
}

impl<T: Copy> MatLike for Matrix<T> {
    open spec fn w_spec(&self) -> nat {
        self@.w
    }

    open spec fn h_spec(&self) -> nat {
        self@.h
    }

    fn w(&self) -> usize {
        Matrix::w(self)
    }

    fn h(&self) -> usize {
        Matrix::h(self)
    }

    fn len(&self) -> usize {
        Matrix::w(self) * Matrix::h(self)
    }
}

/// A rectangular window into a matrix: the block of `h2` rows and `w2`
/// columns whose top-left entry is the matrix's `(h1, w1)`.
pub struct MatSlice<'a, T> {
    mat: &'a Matrix<T>,
    w1: usize,
    h1: usize,
    w2: usize,
    h2: usize,
}

impl<'a, T: Copy> MatSlice<'a, T> {
    /// Whether the window lies within the matrix.
    pub closed spec fn wf(self) -> bool {
        &&& self.mat@.wf()
        &&& self.h1 + self.h2 <= self.mat@.h
        &&& self.w1 + self.w2 <= self.mat@.w
    }

    /// The window of `mat` of `h2` rows and `w2` columns starting at
    /// `(h1, w1)`, which must lie within the matrix.
    pub fn new(mat: &'a Matrix<T>, w1: usize, h1: usize, w2: usize, h2: usize) -> (r: Result<
        MatSlice<'a, T>,
        IndexError,
    >)
        requires
            mat@.wf(),
        ensures
            match r {
                Ok(s) => {
                    &&& h1 + h2 <= mat@.h && w1 + w2 <= mat@.w
                    &&& s.wf()
                    &&& s.view_of() == (MatSliceView {
                        mat: mat@,
                        w1: w1 as nat,
                        h1: h1 as nat,
                        w2: w2 as nat,
                        h2: h2 as nat,
                    })
                },
                Err(e) => {
                    &&& !(h1 + h2 <= mat@.h && w1 + w2 <= mat@.w)
                    &&& e == (IndexError {
                        row: h1,
                        col: w1,
                        w: mat@.w as usize,
                        h: mat@.h as usize,
                    })
                },
            },
    {
        let mw = Matrix::w(mat);
        let mh = Matrix::h(mat);
        if h2 <= mh && h1 <= mh - h2 && w2 <= mw && w1 <= mw - w2 {
            Ok(MatSlice { mat, w1, h1, w2, h2 })
        } else {
            Err(IndexError { row: h1, col: w1, w: mw, h: mh })
        }
    }

    /// The window's placement over the underlying model.
    pub closed spec fn view_of(self) -> MatSliceView<T> {
        MatSliceView {
            mat: self.mat@,
            w1: self.w1 as nat,
            h1: self.h1 as nat,
            w2: self.w2 as nat,
            h2: self.h2 as nat,
        }
    }

    /// The entry of the window at `(row, col)`, which is the underlying
    /// matrix's entry at `(h1 + row, w1 + col)`; an out-of-range index is
    /// reported against the window's own bounds.
    pub fn index(&self, row: usize, col: usize) -> (r: Result<T, IndexError>)
        requires
            self.wf(),
        ensures
            match r {
                Ok(v) => {
                    &&& row < self.view_of().h2 && col < self.view_of().w2
                    &&& v == self.view_of().mat.ent(
                        self.view_of().h1 + row,
                        self.view_of().w1 + col,
                    )
                },
                Err(e) => {
                    &&& !(row < self.view_of().h2 && col < self.view_of().w2)
                    &&& e == (IndexError {
                        row,
                        col,
                        w: self.view_of().w2 as usize,
                        h: self.view_of().h2 as usize,
                    })
                },
            },
    {
        if row < self.h2 && col < self.w2 {
            let mw = Matrix::w(self.mat);
            let mh = Matrix::h(self.mat);
            proof {
                assert(self.h1 + row < mh && self.w1 + col < mw);
            }
            match self.mat.index(self.h1 + row, self.w1 + col) {
                Ok(v) => Ok(v),
                Err(_) => vstd::pervasive::unreached(),
            }
        } else {
            Err(IndexError { row, col, w: self.w2, h: self.h2 })
        }
    }
}

/// The model of a matrix window: the underlying matrix model and the
/// window's offsets and extent.
pub struct MatSliceView<T> {
    pub mat: MatView<T>,
    pub w1: nat,
    pub h1: nat,
    pub w2: nat,
    pub h2: nat,
}

/// Row `i` of the model, as a one-row model.
pub open spec fn row_view<T>(m: MatView<T>, i: int) -> MatView<T> {
    MatView { w: m.w, h: 1, data: m.data.subrange(i * m.w, i * m.w + m.w) }
}

/// The matrix a rectangular grid of rows denotes: entry `(i, j)` is
/// `rows[i][j]`, the width that of the first row (zero when there are no
/// rows).
pub open spec fn grid_view<T>(rows: Seq<Seq<T>>) -> MatView<T> {
    let h = rows.len();
    let w: nat = if h == 0 {
        0
    } else {
        rows[0].len()
    };
    MatView { w, h, data: Seq::new(w * h, |n: int| rows[n / w as int][n % w as int]) }
}

/// The transpose: shape swapped, entry `(i, j)` taken from `(j, i)`.
pub open spec fn transpose_view<T>(m: MatView<T>) -> MatView<T> {
    MatView {
        w: m.h,
        h: m.w,
        data: Seq::new(m.w * m.h, |n: int| m.data[(n % m.h as int) * m.w + n / m.h as int]),
    }
}

/// The elementwise combination of two equally shaped models.
pub open spec fn map2_view<T>(a: MatView<T>, b: MatView<T>, f: spec_fn(T, T) -> T) -> MatView<T> {
    MatView { w: a.w, h: a.h, data: Seq::new(a.data.len(), |n: int| f(a.data[n], b.data[n])) }
}

pub open spec fn add_view<T: Scalar>(a: MatView<T>, b: MatView<T>) -> MatView<T> {
    map2_view(a, b, |x: T, y: T| x.plus_spec(y))
}

pub open spec fn sub_view<T: Scalar>(a: MatView<T>, b: MatView<T>) -> MatView<T> {
    map2_view(a, b, |x: T, y: T| x.minus_spec(y))
}

pub open spec fn hadamard_view<T: Scalar>(a: MatView<T>, b: MatView<T>) -> MatView<T> {
    map2_view(a, b, |x: T, y: T| x.times_spec(y))
}

/// Every entry scaled by the constant `c` (on the right).
pub open spec fn scale_view<T: Scalar>(m: MatView<T>, c: T) -> MatView<T> {
    MatView { w: m.w, h: m.h, data: Seq::new(m.data.len(), |n: int| m.data[n].times_spec(c)) }
}

/// The running sum, in index order, of the first `k` products
/// `a(i, n) * b(n, j)`, starting from zero. This is the exact fold the
/// executable multiplication computes for the entry `(i, j)`.
pub open spec fn dot_acc<T: Scalar>(a: MatView<T>, b: MatView<T>, i: int, j: int, k: nat) -> T
    decreases k,
{
    if k == 0 {
        T::zero_spec()
    } else {
        dot_acc(a, b, i, j, (k - 1) as nat).plus_spec(
            a.ent(i, k - 1).times_spec(b.ent(k - 1, j)),
        )
    }
}

/// The matrix product. The shape convention is fixed throughout the
/// crate: `a` is `a.h x a.w`, `b` is `b.h x b.w`, `a.w == b.h` is the
/// inner dimension, and the product is `a.h x b.w`.
pub open spec fn matmul_view<T: Scalar>(a: MatView<T>, b: MatView<T>) -> MatView<T> {
    MatView {
        w: b.w,
        h: a.h,
        data: Seq::new(a.h * b.w, |n: int| dot_acc(a, b, n / b.w as int, n % b.w as int, b.h)),
    }
}

/// The square identity model: ones on the diagonal, zeroes elsewhere.
pub open spec fn is_identity_view<T: Scalar>(m: MatView<T>) -> bool {
    &&& m.wf()
    &&& m.w == m.h
    &&& forall|i: int, j: int|
        m.in_bounds(i, j) ==> #[trigger] m.ent(i, j) == if i == j {
            T::one_spec()
        } else {
            T::zero_spec()
        }
}

/// A row-major position computed from an in-bounds `(i, j)` stays within
/// the buffer.
pub proof fn lemma_row_major_bound(i: int, j: int, w: int, h: int)
    requires
        0 <= i < h,
        0 <= j < w,
    ensures
        0 <= i * w + j < h * w,
{
    assert(i * w + j < h * w) by (nonlinear_arith)
        requires
            0 <= i < h,
            0 <= j < w,
    ;
}

/// A row-major position decomposes back into its row and column.
pub proof fn lemma_row_major_coords(i: int, j: int, w: int)
    requires
        0 <= i,
        0 <= j < w,
    ensures
        (i * w + j) / w == i,
        (i * w + j) % w == j,
{
    vstd::arithmetic::div_mod::lemma_fundamental_div_mod_converse(i * w + j, w, i, j);
}

/// Against an identity right operand, the running sum of the first `k`
/// products is zero until the diagonal term has been taken in, and the
/// row's own entry afterwards.
proof fn lemma_dot_identity_prefix<T: Scalar>(a: MatView<T>, id: MatView<T>, i: int, j: int, k: nat)
    requires
        forall|v: T| #[trigger] v.plus_spec(T::zero_spec()) == v,
        forall|v: T| #[trigger] T::zero_spec().plus_spec(v) == v,
        forall|v: T| #[trigger] v.times_spec(T::one_spec()) == v,
        forall|v: T| #[trigger] v.times_spec(T::zero_spec()) == T::zero_spec(),
        a.wf(),
        is_identity_view::<T>(id),
        a.w == id.h,
        0 <= i < a.h,
        0 <= j < id.w,
        k <= id.h,
    ensures
        dot_acc(a, id, i, j, k) == if k <= j {
            T::zero_spec()
        } else {
            a.ent(i, j)
        },
    decreases k,
{
    if k > 0 {
        lemma_dot_identity_prefix(a, id, i, j, (k - 1) as nat);
        assert(id.in_bounds(k - 1, j));
        let term = a.ent(i, k - 1).times_spec(id.ent(k - 1, j));
        if k - 1 == j {
            assert(term == a.ent(i, j));
        } else {
            assert(term == T::zero_spec());
        }
    }
}

/// Multiplying on the right by the identity returns the matrix itself,
/// shape and every entry, for any scalar whose zero is an additive
/// identity and a right annihilator and whose one is a right
/// multiplicative identity (as the crate's `i64` instance is).
pub proof fn lemma_mul_identity<T: Scalar>(a: MatView<T>, id: MatView<T>)
    requires
        forall|v: T| #[trigger] v.plus_spec(T::zero_spec()) == v,
        forall|v: T| #[trigger] T::zero_spec().plus_spec(v) == v,
        forall|v: T| #[trigger] v.times_spec(T::one_spec()) == v,
        forall|v: T| #[trigger] v.times_spec(T::zero_spec()) == T::zero_spec(),
        a.wf(),
        is_identity_view::<T>(id),
        a.w == id.h,
    ensures
        matmul_view(a, id) == a,
{
    let p = matmul_view(a, id);
    assert(a.h * id.w == a.w * a.h) by (nonlinear_arith)
        requires
            id.w == id.h && id.h == a.w,
    ;
    assert forall|n: int| 0 <= n < p.data.len() implies p.data[n] == a.data[n] by {
        assert(a.w > 0 && a.h > 0) by (nonlinear_arith)
            requires
                0 <= n < a.h * id.w,
                id.w == a.w,
        ;
        let i: int = n / a.w as int;
        let j: int = n % a.w as int;
        vstd::arithmetic::div_mod::lemma_fundamental_div_mod(n, a.w as int);
        vstd::arithmetic::div_mod::lemma_mod_bound(n, a.w as int);
        assert(i < a.h) by (nonlinear_arith)
            requires
                n == i * a.w + j,
                n < a.h * a.w,
                0 <= j < a.w,
                0 <= i,
        ;
        lemma_dot_identity_prefix(a, id, i, j, id.h);
        assert(p.data[n] == dot_acc(a, id, n / id.w as int, n % id.w as int, id.h));
        assert(id.h > j);
        assert(p.data[n] == a.ent(i, j));
    }
    assert(p =~= a);
}

/// The identity law at the crate's own scalar, with no hypotheses:
/// multiplying an `i64` matrix on the right by the identity returns it,
/// shape and every entry.
pub proof fn lemma_mul_identity_i64(a: MatView<i64>, id: MatView<i64>)
    requires
        a.wf(),
        is_identity_view::<i64>(id),
        a.w == id.h,
    ensures
        matmul_view(a, id) == a,
{
    crate::scalar::lemma_i64_scalar_laws();
    lemma_mul_identity(a, id);
}

/// The transpose of a well-formed model is well-formed.
pub proof fn lemma_transpose_wf<T>(m: MatView<T>)
    requires
        m.wf(),
    ensures
        transpose_view(m).wf(),
        transpose_view(m).w == m.h,
        transpose_view(m).h == m.w,
{
    assert(m.w * m.h == m.h * m.w) by (nonlinear_arith);
}

/// Transposition swaps the shape and carries the entry `(j, i)` to `(i, j)`.
pub proof fn lemma_transpose_ent<T>(m: MatView<T>, i: int, j: int)
    requires
        m.wf(),
        0 <= i < m.w,
        0 <= j < m.h,
    ensures
        transpose_view(m).wf(),
        transpose_view(m).ent(i, j) == m.ent(j, i),
{
    let t = transpose_view(m);
    assert(m.w * m.h == m.h * m.w) by (nonlinear_arith);
    lemma_row_major_bound(i, j, m.h as int, m.w as int);
    lemma_row_major_coords(i, j, m.h as int);
    assert(t.data[i * m.h + j] == m.data[j * m.w + i]);
}

/// Transposing twice restores the shape and every entry.
pub proof fn lemma_transpose_involutive<T>(m: MatView<T>)
    requires
        m.wf(),
    ensures
        transpose_view(transpose_view(m)) == m,
{
    let t = transpose_view(m);
    let tt = transpose_view(t);
    assert(m.w * m.h == m.h * m.w) by (nonlinear_arith);
    assert forall|n: int| 0 <= n < tt.data.len() implies tt.data[n] == m.data[n] by {
        assert(m.w > 0 && m.h > 0) by (nonlinear_arith)
            requires
                0 <= n < m.w * m.h,
        ;
        let i: int = n / m.w as int;
        let j: int = n % m.w as int;
        vstd::arithmetic::div_mod::lemma_fundamental_div_mod(n, m.w as int);
        vstd::arithmetic::div_mod::lemma_mod_bound(n, m.w as int);
        assert(n == i * m.w + j);
        assert(i < m.h) by (nonlinear_arith)
            requires
                n == i * m.w + j,
                n < m.h * m.w,
                0 <= j < m.w,
                0 <= i,
        ;
        lemma_row_major_coords(i, j, m.w as int);
        assert(tt.data[n] == t.data[j * m.h + i]);
        lemma_row_major_coords(j, i, m.h as int);
        lemma_row_major_bound(j, i, m.h as int, m.w as int);
        assert(t.data[j * m.h + i] == m.data[i * m.w + j]);
    }
    assert(tt =~= m);
}

} // verus!
