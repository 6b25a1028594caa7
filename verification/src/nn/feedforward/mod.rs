//! Layers and the feed-forward network.
//!
//! Shape conventions, used uniformly: a layer with `in_shape` inputs and
//! `out_shape` outputs owns an `out_shape x in_shape` weight matrix (so
//! `weights.w == in_shape`, `weights.h == out_shape`) and an
//! `out_shape x 1` bias column. Layer inputs and pre-activation outputs
//! are columns (`w == 1`); the cached per-layer activations and the value
//! returned by a forward pass are rows (`h == 1`), each the transpose of
//! the corresponding column.

mod train;

pub use train::{
    accumulate_b, accumulate_w, apply_accs, bgrad_at, cwi_view, cwo_at, cwu_view, last_cwo,
    layer_in_draw_range, lemma_forward_shapes, mat_views, sgd_state, wgrad_at, zero_b_accs,
    zero_mat, zero_w_accs,
};

use crate::algebra::{add_view, matmul_view, transpose_view, MatView, Matrix};
use crate::nn::activations::Activation;
use crate::nn::cost::Cost;
use crate::scalar::Scalar;
use core::marker::PhantomData;
use vstd::prelude::*;

verus! {

/// The mathematical model of a layer.
pub struct LayerView<T> {
    pub weights: MatView<T>,
    pub biases: MatView<T>,
    pub in_shape: nat,
    pub out_shape: nat,
}

impl<T> LayerView<T> {
    /// The weight matrix is `out_shape x in_shape`, the bias a column of
    /// height `out_shape`.
    pub open spec fn wf(self) -> bool {
        &&& self.weights.wf()
        &&& self.weights.w == self.in_shape
        &&& self.weights.h == self.out_shape
        &&& self.biases.wf()
        &&& self.biases.w == 1
        &&& self.biases.h == self.out_shape
    }
}

/// Every entry mapped through the activation's forward transform.
pub open spec fn act_map<T: Scalar, A: Activation<T>>(m: MatView<T>) -> MatView<T> {
    MatView { w: m.w, h: m.h, data: Seq::new(m.data.len(), |n: int| A::calc_spec(m.data[n])) }
}

/// Every entry mapped through the activation's derivative.
pub open spec fn prime_map<T: Scalar, A: Activation<T>>(m: MatView<T>) -> MatView<T> {
    MatView { w: m.w, h: m.h, data: Seq::new(m.data.len(), |n: int| A::prime_spec(m.data[n])) }
}

/// A layer's pre-activation output on a column input:
/// `weights * input + biases`.
pub open spec fn layer_unact<T: Scalar>(l: LayerView<T>, input: MatView<T>) -> MatView<T> {
    add_view(matmul_view(l.weights, input), l.biases)
}

/// A layer's activated output on a column input.
pub open spec fn layer_act<T: Scalar, A: Activation<T>>(
    l: LayerView<T>,
    input: MatView<T>,
) -> MatView<T> {
    act_map::<T, A>(layer_unact(l, input))
}

/// The column activation after the first `i` layers: the input itself
/// for `i == 0`, else layer `i - 1` applied to the activation before it.
pub open spec fn forward_act<T: Scalar, A: Activation<T>>(
    layers: Seq<LayerView<T>>,
    input: MatView<T>,
    i: nat,
) -> MatView<T>
    decreases i,
{
    if i == 0 {
        input
    } else {
        layer_act::<T, A>(layers[i - 1], forward_act::<T, A>(layers, input, (i - 1) as nat))
    }
}

/// The column pre-activation output of layer `i - 1` (for `1 <= i`).
pub open spec fn forward_unact<T: Scalar, A: Activation<T>>(
    layers: Seq<LayerView<T>>,
    input: MatView<T>,
    i: nat,
) -> MatView<T>
    recommends
        i >= 1,
{
    layer_unact(layers[i - 1], forward_act::<T, A>(layers, input, (i - 1) as nat))
}

/// A layer: one weight matrix and one bias column, plus its shape.
pub struct Layer<T> {
    weights: Matrix<T>,
    biases: Matrix<T>,
    in_shape: usize,
    out_shape: usize,
}

impl<T> View for Layer<T> {
    type V = LayerView<T>;

    closed spec fn view(&self) -> LayerView<T> {
        LayerView {
            weights: self.weights@,
            biases: self.biases@,
            in_shape: self.in_shape as nat,
            out_shape: self.out_shape as nat,
        }
    }
}

impl<T: Scalar> Layer<T> {
    /// A layer with every weight at one and every bias at zero (a fixed,
    /// deterministic starting point; training re-randomizes).
    pub fn new(in_shape: usize, out_shape: usize) -> (r: Layer<T>)
        requires
            in_shape * out_shape <= usize::MAX,
        ensures
            r@.wf(),
            r@.in_shape == in_shape,
            r@.out_shape == out_shape,
            forall|n: int|
                0 <= n < r@.weights.data.len() ==> r@.weights.data[n] == T::one_spec(),
            forall|n: int| 0 <= n < r@.biases.data.len() ==> r@.biases.data[n] == T::zero_spec(),
    {
        Layer {
            weights: Matrix::new_uniform(T::one(), in_shape, out_shape),
            biases: Matrix::new_uniform(T::zero(), 1, out_shape),
            in_shape,
            out_shape,
        }
    }

    /// The weight matrix.
    pub fn weights(&self) -> (r: &Matrix<T>)
        ensures
            r@ == self@.weights,
    {
        &self.weights
    }

    /// The bias column.
    pub fn biases(&self) -> (r: &Matrix<T>)
        ensures
            r@ == self@.biases,
    {
        &self.biases
    }

    /// The forward pass of one layer on a column input: the pre-activation
    /// output `weights * input + biases` and its activation, both columns,
    /// both retained by the network for the subsequent backward pass.
    pub fn pred<A: Activation<T>>(&self, input: &Matrix<T>) -> (r: (Matrix<T>, Matrix<T>))
        requires
            self@.wf(),
            input@.wf(),
            input@.w == 1,
            input@.h == self@.in_shape,
        ensures
            r.0@ == layer_unact(self@, input@),
            r.0@.wf(),
            r.1@ == layer_act::<T, A>(self@, input@),
            r.1@.wf(),
            r.1@.w == 1,
            r.1@.h == self@.out_shape,
    {
        let wx = match self.weights.matmul(input) {
            Ok(m) => m,
            Err(_) => vstd::pervasive::unreached(),
        };
        let unactivated = match wx.add(&self.biases) {
            Ok(m) => m,
            Err(_) => vstd::pervasive::unreached(),
        };
        let activated = map_act::<T, A>(&unactivated);
        (unactivated, activated)
    }
}

/// Every entry mapped through `A::calc`.
fn map_act<T: Scalar, A: Activation<T>>(m: &Matrix<T>) -> (r: Matrix<T>)
    requires
        m@.wf(),
    ensures
        r@ == act_map::<T, A>(m@),
        r@.wf(),
{
    let src = m.iter();
    let mut data: Vec<T> = Vec::new();
    let mut n: usize = 0;
    while n < src.len()
        invariant
            src@ == m@.data,
            n <= src@.len(),
            data@.len() == n,
            forall|k: int| 0 <= k < n ==> #[trigger] data@[k] == A::calc_spec(m@.data[k]),
        decreases src@.len() - n,
    {
        data.push(A::calc(src[n]));
        n += 1;
    }
    let r = Matrix::from_raw(data, m.w(), m.h());
    proof {
        assert(r@.data =~= act_map::<T, A>(m@).data);
        assert(r@ =~= act_map::<T, A>(m@));
    }
    r
}

/// Every entry mapped through `A::prime`.
fn map_prime<T: Scalar, A: Activation<T>>(m: &Matrix<T>) -> (r: Matrix<T>)
    requires
        m@.wf(),
    ensures
        r@ == prime_map::<T, A>(m@),
        r@.wf(),
{
    let src = m.iter();
    let mut data: Vec<T> = Vec::new();
    let mut n: usize = 0;
    while n < src.len()
        invariant
            src@ == m@.data,
            n <= src@.len(),
            data@.len() == n,
            forall|k: int| 0 <= k < n ==> #[trigger] data@[k] == A::prime_spec(m@.data[k]),
        decreases src@.len() - n,
    {
        data.push(A::prime(src[n]));
        n += 1;
    }
    let r = Matrix::from_raw(data, m.w(), m.h());
    proof {
        assert(r@.data =~= prime_map::<T, A>(m@).data);
        assert(r@ =~= prime_map::<T, A>(m@));
    }
    r
}

/// The mathematical model of a network: its layers, and the cached
/// per-layer activations (rows) and pre-activation outputs (columns) of
/// the most recent forward pass.
pub struct NetView<T> {
    pub layers: Seq<LayerView<T>>,
    pub activated: Seq<MatView<T>>,
    pub unactivated: Seq<MatView<T>>,
}

impl<T> NetView<T> {
    /// At least one layer; consecutive layers agree on their shared
    /// width; one activation cache slot per layer boundary and one
    /// pre-activation slot per layer.
    pub open spec fn wf(self) -> bool {
        &&& self.layers.len() >= 1
        &&& forall|i: int| 0 <= i < self.layers.len() ==> (#[trigger] self.layers[i]).wf()
        &&& forall|i: int|
            0 < i < self.layers.len() ==> (#[trigger] self.layers[i]).in_shape == self.layers[
                i - 1
            ].out_shape
        &&& self.activated.len() == self.layers.len() + 1
        &&& self.unactivated.len() == self.layers.len()
    }

    /// The network's input width.
    pub open spec fn in_width(self) -> nat {
        self.layers[0].in_shape
    }

    /// The network's output width.
    pub open spec fn out_width(self) -> nat {
        self.layers[self.layers.len() - 1].out_shape
    }
}

/// A feed-forward network: an ordered stack of layers, the caches of the
/// most recent forward pass, and the activation and cost strategies fixed
/// by its type.
pub struct FFNet<T: Scalar, A: Activation<T>, C: Cost<T>> {
    layers: Vec<Layer<T>>,
    activated: Vec<Matrix<T>>,
    unactivated: Vec<Matrix<T>>,
    strategies: PhantomData<(A, C)>,
}

impl<T: Scalar, A: Activation<T>, C: Cost<T>> View for FFNet<T, A, C> {
    type V = NetView<T>;

    closed spec fn view(&self) -> NetView<T> {
        NetView {
            layers: self.layers@.map_values(|l: Layer<T>| l@),
            activated: self.activated@.map_values(|m: Matrix<T>| m@),
            unactivated: self.unactivated@.map_values(|m: Matrix<T>| m@),
        }
    }
}

impl<T: Scalar, A: Activation<T>, C: Cost<T>> FFNet<T, A, C> {
    /// Builds the network connecting consecutive widths of `shape`:
    /// `shape.len() - 1` layers, the layer `i` mapping width `shape[i]`
    /// to width `shape[i + 1]`, with weights fixed at one and biases at
    /// zero, and zeroed cache slots sized to the corresponding widths:
    /// one activation column per width and one pre-activation column per
    /// layer output. The width list names the input feature count first
    /// and the output dimension last, so it holds at least those two
    /// entries.
    pub fn new(shape: Vec<usize>) -> (r: FFNet<T, A, C>)
        requires
            shape@.len() >= 2,
            forall|i: int|
                0 < i < shape@.len() ==> #[trigger] (shape@[i - 1] * shape@[i]) <= usize::MAX,
        ensures
            r@.wf(),
            r@.layers.len() == shape@.len() - 1,
            forall|i: int|
                0 <= i < r@.layers.len() ==> {
                    &&& (#[trigger] r@.layers[i]).in_shape == shape@[i]
                    &&& r@.layers[i].out_shape == shape@[i + 1]
                    &&& forall|n: int|
                        0 <= n < r@.layers[i].weights.data.len()
                            ==> r@.layers[i].weights.data[n] == T::one_spec()
                    &&& forall|n: int|
                        0 <= n < r@.layers[i].biases.data.len() ==> r@.layers[i].biases.data[n]
                            == T::zero_spec()
                },
            forall|i: int|
                0 <= i < shape@.len() ==> #[trigger] r@.activated[i] == zero_mat::<T>(
                    1,
                    shape@[i] as nat,
                ),
            forall|i: int|
                0 <= i < shape@.len() - 1 ==> #[trigger] r@.unactivated[i] == zero_mat::<T>(
                    1,
                    shape@[i + 1] as nat,
                ),
    {
        let mut layers: Vec<Layer<T>> = Vec::new();
        let mut i: usize = 1;
        while i < shape.len()
            invariant
                shape@.len() >= 2,
                forall|k: int|
                    0 < k < shape@.len() ==> #[trigger] (shape@[k - 1] * shape@[k]) <= usize::MAX,
                1 <= i <= shape@.len(),
                layers@.len() == i - 1,
                forall|k: int|
                    0 <= k < layers@.len() ==> {
                        &&& (#[trigger] layers@[k]@).wf()
                        &&& layers@[k]@.in_shape == shape@[k]
                        &&& layers@[k]@.out_shape == shape@[k + 1]
                        &&& forall|n: int|
                            0 <= n < layers@[k]@.weights.data.len() ==> layers@[k]@.weights.data[n]
                                == T::one_spec()
                        &&& forall|n: int|
                            0 <= n < layers@[k]@.biases.data.len() ==> layers@[k]@.biases.data[n]
                                == T::zero_spec()
                    },
            decreases shape@.len() - i,
        {
            layers.push(Layer::new(shape[i - 1], shape[i]));
            i += 1;
        }
        let mut activated: Vec<Matrix<T>> = Vec::new();
        let mut j: usize = 0;
        while j < shape.len()
            invariant
                j <= shape@.len(),
                activated@.len() == j,
                forall|k: int|
                    0 <= k < j ==> {
                        &&& (#[trigger] activated@[k]@).wf()
                        &&& activated@[k]@ == zero_mat::<T>(1, shape@[k] as nat)
                    },
            decreases shape@.len() - j,
        {
            let m = Matrix::new_uniform(T::zero(), 1, shape[j]);
            proof {
                assert(m@.data =~= zero_mat::<T>(1, shape@[j as int] as nat).data);
                assert(m@ =~= zero_mat::<T>(1, shape@[j as int] as nat));
            }
            activated.push(m);
            j += 1;
        }
        let mut unactivated: Vec<Matrix<T>> = Vec::new();
        let mut k: usize = 1;
        while k < shape.len()
            invariant
                1 <= k <= shape@.len(),
                unactivated@.len() == k - 1,
                forall|n: int|
                    0 <= n < k - 1 ==> {
                        &&& (#[trigger] unactivated@[n]@).wf()
                        &&& unactivated@[n]@ == zero_mat::<T>(1, shape@[n + 1] as nat)
                    },
            decreases shape@.len() - k,
        {
            let m = Matrix::new_uniform(T::zero(), 1, shape[k]);
            proof {
                assert(m@.data =~= zero_mat::<T>(1, shape@[k as int] as nat).data);
                assert(m@ =~= zero_mat::<T>(1, shape@[k as int] as nat));
            }
            unactivated.push(m);
            k += 1;
        }
        FFNet { layers, activated, unactivated, strategies: PhantomData }
    }

    /// The number of layers.
    pub fn depth(&self) -> (r: usize)
        ensures
            r == self@.layers.len(),
    {
        self.layers.len()
    }

    /// Forwards a column input through every layer in order, overwriting
    /// the caches: afterwards `activated[i]` holds the row transpose of
    /// the activation entering layer `i` (and `activated[depth]` the
    /// network's output), and `unactivated[i]` the pre-activation column
    /// that layer `i` produced. Returns the final activated output as a
    /// row. Not reentrant on one instance: a concurrent caller would
    /// overwrite these caches.
    pub fn pred_single(&mut self, input: Matrix<T>) -> (r: Matrix<T>)
        requires
            old(self)@.wf(),
            input@.wf(),
            input@.w == 1,
            input@.h == old(self)@.in_width(),
        ensures
            final(self)@.wf(),
            final(self)@.layers == old(self)@.layers,
            forall|i: int|
                0 <= i <= old(self)@.layers.len() ==> final(self)@.activated[i] == transpose_view(
                    forward_act::<T, A>(old(self)@.layers, input@, i as nat),
                ),
            forall|i: int|
                0 <= i < old(self)@.layers.len() ==> final(self)@.unactivated[i]
                    == forward_unact::<T, A>(old(self)@.layers, input@, (i + 1) as nat),
            r@ == transpose_view(
                forward_act::<T, A>(old(self)@.layers, input@, old(self)@.layers.len()),
            ),
            r@.wf(),
            r@.h == 1,
            r@.w == old(self)@.out_width(),
    {
        let ghost layers0 = self@.layers;
        let mut cur = input;
        let mut i: usize = 0;
        while i < self.layers.len()
            invariant
                self@.wf(),
                self@.layers == layers0,
                input@.wf(),
                input@.w == 1,
                input@.h == self@.in_width(),
                i <= self@.layers.len(),
                cur@ == forward_act::<T, A>(layers0, input@, i as nat),
                cur@.wf(),
                cur@.w == 1,
                cur@.h == if i < self@.layers.len() {
                    self@.layers[i as int].in_shape
                } else {
                    self@.out_width()
                },
                forall|k: int|
                    0 <= k < i ==> self@.activated[k] == transpose_view(
                        forward_act::<T, A>(layers0, input@, k as nat),
                    ),
                forall|k: int|
                    0 <= k < i ==> self@.unactivated[k] == forward_unact::<T, A>(
                        layers0,
                        input@,
                        (k + 1) as nat,
                    ),
            decreases self@.layers.len() - i,
        {
            let ghost acts0 = self@.activated;
            let ghost unacts0 = self@.unactivated;
            let row = cur.new_transposed();
            self.activated.set(i, row);
            let (u, a) = self.layers[i].pred::<A>(&cur);
            self.unactivated.set(i, u);
            cur = a;
            i += 1;
            proof {
                assert(self@.layers =~= layers0);
                assert(self@.activated =~= acts0.update((i - 1) as int, row@));
                assert(self@.unactivated =~= unacts0.update((i - 1) as int, u@));
                assert(row@ == transpose_view(forward_act::<T, A>(layers0, input@, (i - 1) as nat)));
                assert(u@ == forward_unact::<T, A>(layers0, input@, i as nat));
                assert(cur@ == forward_act::<T, A>(layers0, input@, i as nat));
                assert forall|k: int|
                    0 <= k < i implies self@.activated[k] == transpose_view(
                    forward_act::<T, A>(layers0, input@, k as nat),
                ) by {
                    if k < i - 1 {
                        assert(self@.activated[k] == acts0[k]);
                    }
                }
                assert forall|k: int|
                    0 <= k < i implies self@.unactivated[k] == forward_unact::<T, A>(
                    layers0,
                    input@,
                    (k + 1) as nat,
                ) by {
                    if k < i - 1 {
                        assert(self@.unactivated[k] == unacts0[k]);
                    }
                }
            }
        }
        let ghost acts1 = self@.activated;
        let out = cur.new_transposed();
        let out2 = out.clone();
        self.activated.set(self.layers.len(), out2);
        proof {
            let n: int = layers0.len() as int;
            assert(self@.layers =~= layers0);
            assert(self@.activated =~= acts1.update(n, out@));
            assert forall|k: int|
                0 <= k <= n implies self@.activated[k] == transpose_view(
                forward_act::<T, A>(layers0, input@, k as nat),
            ) by {
                if k < n {
                    assert(self@.activated[k] == acts1[k]);
                }
            }
        }
        out
    }
}

} // verus!
