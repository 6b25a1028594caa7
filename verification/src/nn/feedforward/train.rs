//! Training: backpropagation and mini-batch stochastic gradient descent.
//!
//! The backward pass is the chain rule through the forward conventions of
//! the parent module. For a layer with pre-activation output `u` (column)
//! and incoming cost gradient `c` (column, with respect to the layer's
//! activated output): the gradient with respect to `u` is the Hadamard
//! product `c .* prime(u)`; the weight gradient is its outer product with
//! the layer's input row; the bias gradient is it itself; and the
//! gradient handed to the previous layer is `(cwu^T * weights)^T`.

use super::{
    act_map, forward_act, forward_unact, layer_unact, map_prime, prime_map, FFNet,
    Layer, LayerView,
};
use crate::algebra::{
    add_view, hadamard_view, matmul_view, row_view, scale_view, sub_view, transpose_view, MatView,
    Matrix, ShapeError,
};
use crate::nn::activations::Activation;
use crate::nn::cost::Cost;
use crate::scalar::{in_draw_range, Scalar};
use vstd::prelude::*;

verus! {

/// Every weight and bias entry of the layer lies in the scalar's
/// parameter-draw interval, as after a fresh randomization.
pub open spec fn layer_in_draw_range<T: Scalar>(l: LayerView<T>) -> bool {
    &&& forall|n: int| 0 <= n < l.weights.data.len() ==> in_draw_range(#[trigger] l.weights.data[n])
    &&& forall|n: int| 0 <= n < l.biases.data.len() ==> in_draw_range(#[trigger] l.biases.data[n])
}

/// The views of a vector of matrices.
pub open spec fn mat_views<T>(v: Seq<Matrix<T>>) -> Seq<MatView<T>> {
    v.map_values(|m: Matrix<T>| m@)
}

/// The all-zero model of the given shape.
pub open spec fn zero_mat<T: Scalar>(w: nat, h: nat) -> MatView<T> {
    MatView { w, h, data: Seq::new(w * h, |n: int| T::zero_spec()) }
}

/// Zero-valued weight accumulators, one per layer, shaped like its
/// weight matrix.
pub open spec fn zero_w_accs<T: Scalar>(layers: Seq<LayerView<T>>) -> Seq<MatView<T>> {
    Seq::new(layers.len(), |k: int| zero_mat::<T>(layers[k].in_shape, layers[k].out_shape))
}

/// Zero-valued bias accumulators, one per layer, shaped like its bias
/// column.
pub open spec fn zero_b_accs<T: Scalar>(layers: Seq<LayerView<T>>) -> Seq<MatView<T>> {
    Seq::new(layers.len(), |k: int| zero_mat::<T>(1, layers[k].out_shape))
}

/// One example taken into the weight accumulators: per layer, that
/// layer's weight gradient for the example, scaled by `factor`,
/// subtracted from the accumulator.
pub open spec fn accumulate_w<T: Scalar, A: Activation<T>, C: Cost<T>>(
    layers: Seq<LayerView<T>>,
    wacc: Seq<MatView<T>>,
    xi: MatView<T>,
    yi: MatView<T>,
    factor: T,
) -> Seq<MatView<T>> {
    Seq::new(
        wacc.len(),
        |k: int|
            sub_view(
                wacc[k],
                scale_view(
                    wgrad_at::<T, A>(layers, xi, last_cwo::<T, A, C>(layers, xi, yi), k),
                    factor,
                ),
            ),
    )
}

/// One example taken into the bias accumulators, as for the weights.
pub open spec fn accumulate_b<T: Scalar, A: Activation<T>, C: Cost<T>>(
    layers: Seq<LayerView<T>>,
    bacc: Seq<MatView<T>>,
    xi: MatView<T>,
    yi: MatView<T>,
    factor: T,
) -> Seq<MatView<T>> {
    Seq::new(
        bacc.len(),
        |k: int|
            sub_view(
                bacc[k],
                scale_view(
                    bgrad_at::<T, A>(layers, xi, last_cwo::<T, A, C>(layers, xi, yi), k),
                    factor,
                ),
            ),
    )
}

/// The accumulators applied: per layer, the deltas added to the weights
/// and biases, shape unchanged.
pub open spec fn apply_accs<T: Scalar>(
    layers: Seq<LayerView<T>>,
    wacc: Seq<MatView<T>>,
    bacc: Seq<MatView<T>>,
) -> Seq<LayerView<T>> {
    Seq::new(
        layers.len(),
        |k: int|
            LayerView {
                weights: add_view(layers[k].weights, wacc[k]),
                biases: add_view(layers[k].biases, bacc[k]),
                in_shape: layers[k].in_shape,
                out_shape: layers[k].out_shape,
            },
    )
}

/// The training state — layers, weight accumulators, bias accumulators —
/// after the first `i` examples of one gradient-descent pass starting
/// from `init`: each example's gradients, scaled by `factor`, are
/// subtracted into the accumulators, and after every `batch_size`-th
/// example the accumulators are applied to the layers and reset to zero.
pub open spec fn sgd_state<T: Scalar, A: Activation<T>, C: Cost<T>>(
    init: Seq<LayerView<T>>,
    x: MatView<T>,
    y: MatView<T>,
    batch_size: int,
    factor: T,
    i: nat,
) -> (Seq<LayerView<T>>, Seq<MatView<T>>, Seq<MatView<T>>)
    decreases i,
{
    if i == 0 {
        (init, zero_w_accs(init), zero_b_accs(init))
    } else {
        let prev = sgd_state::<T, A, C>(init, x, y, batch_size, factor, (i - 1) as nat);
        let xi = transpose_view(row_view(x, i - 1));
        let yi = row_view(y, i - 1);
        let wacc = accumulate_w::<T, A, C>(prev.0, prev.1, xi, yi, factor);
        let bacc = accumulate_b::<T, A, C>(prev.0, prev.2, xi, yi, factor);
        if i as int % batch_size == 0 {
            (apply_accs(prev.0, wacc, bacc), zero_w_accs(prev.0), zero_b_accs(prev.0))
        } else {
            (prev.0, wacc, bacc)
        }
    }
}

/// The cost gradient with respect to a layer's pre-activation output:
/// the incoming gradient gated entrywise by the activation's derivative.
pub open spec fn cwu_view<T: Scalar, A: Activation<T>>(
    unact: MatView<T>,
    cwo: MatView<T>,
) -> MatView<T> {
    hadamard_view(cwo, prime_map::<T, A>(unact))
}

/// The cost gradient with respect to a layer's input, handed to the
/// previous layer as its own incoming gradient.
pub open spec fn cwi_view<T: Scalar, A: Activation<T>>(
    l: LayerView<T>,
    unact: MatView<T>,
    cwo: MatView<T>,
) -> MatView<T> {
    transpose_view(matmul_view(transpose_view(cwu_view::<T, A>(unact, cwo)), l.weights))
}

/// The cost gradient (column) arriving at layer `i` during the backward
/// pass on input `x`, when the last layer received `last`: `last` itself
/// at the last layer, and otherwise what layer `i + 1` hands back.
pub open spec fn cwo_at<T: Scalar, A: Activation<T>>(
    layers: Seq<LayerView<T>>,
    x: MatView<T>,
    last: MatView<T>,
    i: int,
) -> MatView<T>
    decreases layers.len() - i,
{
    if i >= layers.len() - 1 {
        last
    } else {
        cwi_view::<T, A>(
            layers[i + 1],
            forward_unact::<T, A>(layers, x, (i + 2) as nat),
            cwo_at::<T, A>(layers, x, last, i + 1),
        )
    }
}

/// The weight gradient of layer `i` for one example: the gradient with
/// respect to its pre-activation output, times the row of the input it
/// received.
pub open spec fn wgrad_at<T: Scalar, A: Activation<T>>(
    layers: Seq<LayerView<T>>,
    x: MatView<T>,
    last: MatView<T>,
    i: int,
) -> MatView<T> {
    matmul_view(
        cwu_view::<T, A>(
            forward_unact::<T, A>(layers, x, (i + 1) as nat),
            cwo_at::<T, A>(layers, x, last, i),
        ),
        transpose_view(forward_act::<T, A>(layers, x, i as nat)),
    )
}

/// The bias gradient of layer `i` for one example: the gradient with
/// respect to its pre-activation output.
pub open spec fn bgrad_at<T: Scalar, A: Activation<T>>(
    layers: Seq<LayerView<T>>,
    x: MatView<T>,
    last: MatView<T>,
    i: int,
) -> MatView<T> {
    cwu_view::<T, A>(
        forward_unact::<T, A>(layers, x, (i + 1) as nat),
        cwo_at::<T, A>(layers, x, last, i),
    )
}

/// The cost gradient (column) the last layer receives for one example:
/// the cost strategy's gradient of the network's prediction on `x`
/// against the target row `y`, transposed into a column.
pub open spec fn last_cwo<T: Scalar, A: Activation<T>, C: Cost<T>>(
    layers: Seq<LayerView<T>>,
    x: MatView<T>,
    y: MatView<T>,
) -> MatView<T> {
    transpose_view(
        C::prime_spec(transpose_view(forward_act::<T, A>(layers, x, layers.len())), y),
    )
}

/// The shapes of the forward pass: through well-formed chained layers, a
/// column stays a column, and its height is the width of the layer it is
/// about to enter (the network's output width once past the last layer).
pub proof fn lemma_forward_shapes<T: Scalar, A: Activation<T>>(
    layers: Seq<LayerView<T>>,
    x: MatView<T>,
    i: nat,
)
    requires
        layers.len() >= 1,
        forall|k: int| 0 <= k < layers.len() ==> (#[trigger] layers[k]).wf(),
        forall|k: int|
            0 < k < layers.len() ==> (#[trigger] layers[k]).in_shape == layers[k - 1].out_shape,
        x.wf(),
        x.w == 1,
        x.h == layers[0].in_shape,
        i <= layers.len(),
    ensures
        forward_act::<T, A>(layers, x, i).wf(),
        forward_act::<T, A>(layers, x, i).w == 1,
        forward_act::<T, A>(layers, x, i).h == if i < layers.len() {
            layers[i as int].in_shape
        } else {
            layers[layers.len() - 1].out_shape
        },
        i >= 1 ==> {
            &&& forward_unact::<T, A>(layers, x, i).wf()
            &&& forward_unact::<T, A>(layers, x, i).w == 1
            &&& forward_unact::<T, A>(layers, x, i).h == layers[i - 1].out_shape
        },
    decreases i,
{
    if i > 0 {
        lemma_forward_shapes::<T, A>(layers, x, (i - 1) as nat);
        let prev = forward_act::<T, A>(layers, x, (i - 1) as nat);
        let l = layers[i - 1];
        let mm = matmul_view(l.weights, prev);
        assert(mm.data.len() == mm.w * mm.h) by (nonlinear_arith)
            requires
                mm.data.len() == l.weights.h * prev.w,
                mm.w == prev.w && mm.h == l.weights.h,
        ;
        let u = layer_unact(l, prev);
        assert(u.wf() && u.w == 1 && u.h == l.out_shape);
        assert(forward_act::<T, A>(layers, x, i) == act_map::<T, A>(u));
    }
}

impl<T: Scalar> Layer<T> {
    /// The local gradients of one layer for one example, by the chain
    /// rule: given the row `input` the layer received in the forward
    /// pass, the pre-activation column it produced, and the cost gradient
    /// with respect to its activated output, returns the weight gradient,
    /// the bias gradient, and — except for the first layer, which has no
    /// upstream neighbour to inform — the cost gradient with respect to
    /// the layer's input.
    pub fn calculate_grad<A: Activation<T>>(
        &self,
        input: &Matrix<T>,
        unactivated_output: &Matrix<T>,
        cost_wrt_output: &Matrix<T>,
        is_first_layer: bool,
    ) -> (r: (Matrix<T>, Matrix<T>, Option<Matrix<T>>))
        requires
            self@.wf(),
            input@.wf(),
            input@.h == 1,
            input@.w == self@.in_shape,
            unactivated_output@.wf(),
            unactivated_output@.w == 1,
            unactivated_output@.h == self@.out_shape,
            cost_wrt_output@.wf(),
            cost_wrt_output@.w == 1,
            cost_wrt_output@.h == self@.out_shape,
        ensures
            r.0@ == matmul_view(
                cwu_view::<T, A>(unactivated_output@, cost_wrt_output@),
                input@,
            ),
            r.0@.wf(),
            r.0@.w == self@.in_shape,
            r.0@.h == self@.out_shape,
            r.1@ == cwu_view::<T, A>(unactivated_output@, cost_wrt_output@),
            r.1@.wf(),
            r.1@.w == 1,
            r.1@.h == self@.out_shape,
            match r.2 {
                Some(ci) => {
                    &&& !is_first_layer
                    &&& ci@ == cwi_view::<T, A>(self@, unactivated_output@, cost_wrt_output@)
                    &&& ci@.wf()
                    &&& ci@.w == 1
                    &&& ci@.h == self@.in_shape
                },
                None => is_first_layer,
            },
    {
        let wlen = self.weights.iter().len();
        proof {
            assert(self@.out_shape * self@.in_shape == self@.in_shape * self@.out_shape)
                by (nonlinear_arith);
        }
        let output_wrt_unactivated = map_prime::<T, A>(unactivated_output);
        let cost_wrt_unactivated = match cost_wrt_output.mul_element_wise(output_wrt_unactivated) {
            Ok(m) => m,
            Err(_) => vstd::pervasive::unreached(),
        };
        let weight_grad = match cost_wrt_unactivated.matmul(input) {
            Ok(m) => m,
            Err(_) => vstd::pervasive::unreached(),
        };
        if is_first_layer {
            (weight_grad, cost_wrt_unactivated, None)
        } else {
            let cwu_row = cost_wrt_unactivated.new_transposed();
            let cwi_row = match cwu_row.matmul(&self.weights) {
                Ok(m) => m,
                Err(_) => vstd::pervasive::unreached(),
            };
            let cwi = cwi_row.new_transposed();
            (weight_grad, cost_wrt_unactivated, Some(cwi))
        }
    }

    /// Adds the given deltas to the weights and biases; deltas whose
    /// shapes do not match the parameters produce an error, never a
    /// partial update. The caller fixes the sign convention by scaling
    /// the deltas (negatively, for descent).
    pub fn apply_grad(&mut self, weight: &Matrix<T>, bias: &Matrix<T>) -> (r: Result<
        (),
        ShapeError,
    >)
        requires
            old(self)@.wf(),
            weight@.wf(),
            bias@.wf(),
        ensures
            final(self)@.wf(),
            final(self)@.in_shape == old(self)@.in_shape,
            final(self)@.out_shape == old(self)@.out_shape,
            match r {
                Ok(()) => {
                    &&& weight@.same_shape(old(self)@.weights)
                    &&& bias@.same_shape(old(self)@.biases)
                    &&& final(self)@.weights == add_view(old(self)@.weights, weight@)
                    &&& final(self)@.biases == add_view(old(self)@.biases, bias@)
                },
                Err(e) => {
                    &&& !(weight@.same_shape(old(self)@.weights) && bias@.same_shape(
                        old(self)@.biases,
                    ))
                    &&& *final(self) == *old(self)
                    &&& e == if !weight@.same_shape(old(self)@.weights) {
                        ShapeError::Dims {
                            left_w: old(self)@.weights.w as usize,
                            left_h: old(self)@.weights.h as usize,
                            right_w: weight@.w as usize,
                            right_h: weight@.h as usize,
                        }
                    } else {
                        ShapeError::Dims {
                            left_w: old(self)@.biases.w as usize,
                            left_h: old(self)@.biases.h as usize,
                            right_w: bias@.w as usize,
                            right_h: bias@.h as usize,
                        }
                    }
                },
            },
    {
        if weight.w() != self.weights.w() || weight.h() != self.weights.h() {
            return Err(ShapeError::Dims {
                left_w: self.weights.w(),
                left_h: self.weights.h(),
                right_w: weight.w(),
                right_h: weight.h(),
            });
        }
        if bias.w() != self.biases.w() || bias.h() != self.biases.h() {
            return Err(ShapeError::Dims {
                left_w: self.biases.w(),
                left_h: self.biases.h(),
                right_w: bias.w(),
                right_h: bias.h(),
            });
        }
        let new_weights = match self.weights.add(weight) {
            Ok(m) => m,
            Err(_) => vstd::pervasive::unreached(),
        };
        let new_biases = match self.biases.add(bias) {
            Ok(m) => m,
            Err(_) => vstd::pervasive::unreached(),
        };
        self.weights = new_weights;
        self.biases = new_biases;
        Ok(())
    }

    /// Redraws every weight and bias entry with the scalar type's
    /// parameter draw (intended: uniform over the type's values in
    /// `[-0.3, 0.3)`). The shapes are kept, and every fresh entry lies in
    /// the scalar's draw interval; the distribution over that interval is
    /// beyond what the contract can say of a random draw.
    pub fn randomize_params(&mut self)
        requires
            old(self)@.wf(),
        ensures
            final(self)@.wf(),
            final(self)@.in_shape == old(self)@.in_shape,
            final(self)@.out_shape == old(self)@.out_shape,
            layer_in_draw_range(final(self)@),
    {
        let wlen = self.weights.iter().len();
        let blen = self.biases.iter().len();
        let w = draw_matrix::<T>(self.weights.w(), self.weights.h());
        let b = draw_matrix::<T>(self.biases.w(), self.biases.h());
        self.weights = w;
        self.biases = b;
        proof {
            assert(layer_in_draw_range(self@));
        }
    }
}

impl<T: Scalar, A: Activation<T>, C: Cost<T>> FFNet<T, A, C> {
    /// Zero-valued gradient accumulators shaped like every layer's
    /// weights and biases.
    fn init_params(&self) -> (r: (Vec<Matrix<T>>, Vec<Matrix<T>>))
        requires
            self@.wf(),
        ensures
            r.0@.len() == self@.layers.len(),
            r.1@.len() == self@.layers.len(),
            forall|k: int|
                0 <= k < self@.layers.len() ==> {
                    &&& (#[trigger] r.0@[k])@.wf()
                    &&& r.0@[k]@.w == self@.layers[k].in_shape
                    &&& r.0@[k]@.h == self@.layers[k].out_shape
                    &&& r.0@[k]@ == zero_mat::<T>(
                        self@.layers[k].in_shape,
                        self@.layers[k].out_shape,
                    )
                },
            forall|k: int|
                0 <= k < self@.layers.len() ==> {
                    &&& (#[trigger] r.1@[k])@.wf()
                    &&& r.1@[k]@.w == 1
                    &&& r.1@[k]@.h == self@.layers[k].out_shape
                    &&& r.1@[k]@ == zero_mat::<T>(1, self@.layers[k].out_shape)
                },
    {
        let mut ws: Vec<Matrix<T>> = Vec::new();
        let mut bs: Vec<Matrix<T>> = Vec::new();
        let mut k: usize = 0;
        while k < self.layers.len()
            invariant
                self@.wf(),
                k <= self@.layers.len(),
                ws@.len() == k,
                bs@.len() == k,
                forall|j: int|
                    0 <= j < k ==> {
                        &&& (#[trigger] ws@[j])@.wf()
                        &&& ws@[j]@.w == self@.layers[j].in_shape
                        &&& ws@[j]@.h == self@.layers[j].out_shape
                        &&& ws@[j]@ == zero_mat::<T>(
                            self@.layers[j].in_shape,
                            self@.layers[j].out_shape,
                        )
                    },
                forall|j: int|
                    0 <= j < k ==> {
                        &&& (#[trigger] bs@[j])@.wf()
                        &&& bs@[j]@.w == 1
                        &&& bs@[j]@.h == self@.layers[j].out_shape
                        &&& bs@[j]@ == zero_mat::<T>(1, self@.layers[j].out_shape)
                    },
            decreases self@.layers.len() - k,
        {
            let l = &self.layers[k];
            proof {
                assert(l@ == self@.layers[k as int]);
                assert(l@.wf());
            }
            let wlen = l.weights.iter().len();
            let blen = l.biases.iter().len();
            let z = T::zero();
            let wm = Matrix::new_uniform(z, l.weights.w(), l.weights.h());
            let bm = Matrix::new_uniform(z, l.biases.w(), l.biases.h());
            proof {
                assert(wm@.data =~= zero_mat::<T>(l@.in_shape, l@.out_shape).data);
                assert(wm@ =~= zero_mat::<T>(l@.in_shape, l@.out_shape));
                assert(bm@.data =~= zero_mat::<T>(1, l@.out_shape).data);
                assert(bm@ =~= zero_mat::<T>(1, l@.out_shape));
            }
            ws.push(wm);
            bs.push(bm);
            k += 1;
        }
        (ws, bs)
    }

    /// Applies the given per-layer deltas to every layer's parameters.
    /// The caller fixes the sign convention by scaling the deltas.
    #[verifier::rlimit(60)]
    pub fn apply_grad(&mut self, weight: &Vec<Matrix<T>>, bias: &Vec<Matrix<T>>)
        requires
            old(self)@.wf(),
            weight@.len() == old(self)@.layers.len(),
            bias@.len() == old(self)@.layers.len(),
            forall|k: int|
                0 <= k < weight@.len() ==> (#[trigger] weight@[k])@.wf() && weight@[k]@.same_shape(
                    old(self)@.layers[k].weights,
                ),
            forall|k: int|
                0 <= k < bias@.len() ==> (#[trigger] bias@[k])@.wf() && bias@[k]@.same_shape(
                    old(self)@.layers[k].biases,
                ),
        ensures
            final(self)@.wf(),
            final(self)@.layers.len() == old(self)@.layers.len(),
            forall|k: int|
                0 <= k < old(self)@.layers.len() ==> {
                    &&& (#[trigger] final(self)@.layers[k]).in_shape == old(self)@.layers[
                        k
                    ].in_shape
                    &&& final(self)@.layers[k].out_shape == old(self)@.layers[k].out_shape
                    &&& final(self)@.layers[k].weights == add_view(
                        old(self)@.layers[k].weights,
                        weight@[k]@,
                    )
                    &&& final(self)@.layers[k].biases == add_view(
                        old(self)@.layers[k].biases,
                        bias@[k]@,
                    )
                },
            final(self)@.activated == old(self)@.activated,
            final(self)@.unactivated == old(self)@.unactivated,
    {
        let ghost layers0 = self@.layers;
        let ghost acts0 = self@.activated;
        let ghost unacts0 = self@.unactivated;
        let mut k: usize = 0;
        while k < self.layers.len()
            invariant
                self@.activated == acts0,
                self@.unactivated == unacts0,
                self@.layers.len() == layers0.len(),
                layers0.len() >= 1,
                self@.wf(),
                weight@.len() == layers0.len(),
                bias@.len() == layers0.len(),
                forall|j: int|
                    0 <= j < weight@.len() ==> (#[trigger] weight@[j])@.wf()
                        && weight@[j]@.same_shape(layers0[j].weights),
                forall|j: int|
                    0 <= j < bias@.len() ==> (#[trigger] bias@[j])@.wf() && bias@[j]@.same_shape(
                        layers0[j].biases,
                    ),
                k <= layers0.len(),
                forall|j: int| k <= j < layers0.len() ==> #[trigger] self@.layers[j] == layers0[j],
                forall|j: int|
                    0 <= j < k ==> {
                        &&& (#[trigger] self@.layers[j]).in_shape == layers0[j].in_shape
                        &&& self@.layers[j].out_shape == layers0[j].out_shape
                        &&& self@.layers[j].weights == add_view(layers0[j].weights, weight@[j]@)
                        &&& self@.layers[j].biases == add_view(layers0[j].biases, bias@[j]@)
                    },
            decreases layers0.len() - k,
        {
            let ghost before = self@.layers;
            proof {
                assert(forall|j: int|
                    k <= j < layers0.len() ==> #[trigger] before[j] == layers0[j]);
                assert(forall|j: int|
                    0 <= j < layers0.len() ==> (#[trigger] before[j]).wf());
                assert(forall|j: int|
                    0 < j < layers0.len() ==> (#[trigger] before[j]).in_shape == before[
                        j - 1
                    ].out_shape);
                assert(forall|j: int|
                    0 <= j < k ==> {
                        &&& (#[trigger] before[j]).in_shape == layers0[j].in_shape
                        &&& before[j].out_shape == layers0[j].out_shape
                        &&& before[j].weights == add_view(layers0[j].weights, weight@[j]@)
                        &&& before[j].biases == add_view(layers0[j].biases, bias@[j]@)
                    });
                assert(self.layers@[k as int]@ == before[k as int]);
            }
            match self.layers[k].apply_grad(&weight[k], &bias[k]) {
                Ok(()) => (),
                Err(_) => vstd::pervasive::unreached(),
            }
            let ghost lk = self.layers@[k as int]@;
            proof {
                assert(self@.layers =~= before.update(k as int, lk));
                assert(self@.activated =~= acts0);
                assert(self@.unactivated =~= unacts0);
                assert(lk.wf());
                assert(lk.in_shape == layers0[k as int].in_shape);
                assert(lk.out_shape == layers0[k as int].out_shape);
                assert(lk.weights == add_view(layers0[k as int].weights, weight@[k as int]@));
                assert(lk.biases == add_view(layers0[k as int].biases, bias@[k as int]@));
            }
            k += 1;
            proof {
                assert forall|j: int|
                    k <= j < layers0.len() implies #[trigger] self@.layers[j] == layers0[j] by {
                    assert(self@.layers[j] == before[j]);
                }
                assert forall|j: int|
                    0 <= j < k implies {
                        &&& (#[trigger] self@.layers[j]).in_shape == layers0[j].in_shape
                        &&& self@.layers[j].out_shape == layers0[j].out_shape
                        &&& self@.layers[j].weights == add_view(layers0[j].weights, weight@[j]@)
                        &&& self@.layers[j].biases == add_view(layers0[j].biases, bias@[j]@)
                    } by {
                    if j < k - 1 {
                        assert(self@.layers[j] == before[j]);
                    } else {
                        assert(self@.layers[j] == lk);
                    }
                }
                assert forall|j: int|
                    0 <= j < layers0.len() implies (#[trigger] self@.layers[j]).wf() by {
                    if j != k - 1 {
                        assert(self@.layers[j] == before[j]);
                    }
                }
                assert forall|j: int|
                    0 < j < layers0.len() implies (#[trigger] self@.layers[j]).in_shape
                        == self@.layers[j - 1].out_shape by {
                    assert(before[j].in_shape == before[j - 1].out_shape);
                    assert(self@.layers[j].in_shape == before[j].in_shape);
                    assert(self@.layers[j - 1].out_shape == before[j - 1].out_shape);
                }
            }
        }
    }

    /// The per-layer weight and bias gradients of one training example:
    /// a forward pass on the column `input`, then the chain rule backward
    /// layer by layer from the cost gradient of the resulting prediction
    /// against the target row `output`.
    pub fn single_case_grad(&mut self, input: &Matrix<T>, output: &Matrix<T>) -> (r: (
        Vec<Matrix<T>>,
        Vec<Matrix<T>>,
    ))
        requires
            old(self)@.wf(),
            input@.wf(),
            input@.w == 1,
            input@.h == old(self)@.in_width(),
            output@.wf(),
            output@.h == 1,
            output@.w == old(self)@.out_width(),
        ensures
            final(self)@.wf(),
            final(self)@.layers == old(self)@.layers,
            r.0@.len() == old(self)@.layers.len(),
            r.1@.len() == old(self)@.layers.len(),
            forall|k: int|
                0 <= k < old(self)@.layers.len() ==> {
                    &&& (#[trigger] r.0@[k])@ == wgrad_at::<T, A>(
                        old(self)@.layers,
                        input@,
                        last_cwo::<T, A, C>(old(self)@.layers, input@, output@),
                        k,
                    )
                    &&& r.0@[k]@.wf()
                    &&& r.0@[k]@.w == old(self)@.layers[k].in_shape
                    &&& r.0@[k]@.h == old(self)@.layers[k].out_shape
                },
            forall|k: int|
                0 <= k < old(self)@.layers.len() ==> {
                    &&& (#[trigger] r.1@[k])@ == bgrad_at::<T, A>(
                        old(self)@.layers,
                        input@,
                        last_cwo::<T, A, C>(old(self)@.layers, input@, output@),
                        k,
                    )
                    &&& r.1@[k]@.wf()
                    &&& r.1@[k]@.w == 1
                    &&& r.1@[k]@.h == old(self)@.layers[k].out_shape
                },
    {
        let ghost layers0 = self@.layers;
        let result = self.pred_single(input.clone());
        let cwo_row = C::prime(&result, output);
        let mut cwo = cwo_row.new_transposed();
        let ghost last = cwo@;
        proof {
            assert(last == last_cwo::<T, A, C>(layers0, input@, output@));
            lemma_forward_shapes::<T, A>(layers0, input@, layers0.len());
            crate::algebra::lemma_transpose_wf(
                forward_act::<T, A>(layers0, input@, layers0.len()),
            );
            crate::algebra::lemma_transpose_wf(C::prime_spec(
                transpose_view(forward_act::<T, A>(layers0, input@, layers0.len())),
                output@,
            ));
        }
        let (mut weight_grads, mut bias_grads) = self.init_params();
        let mut i: usize = self.layers.len();
        while i > 0
            invariant
                self@.wf(),
                self@.layers == layers0,
                layers0.len() >= 1,
                input@.wf(),
                input@.w == 1,
                input@.h == layers0[0].in_shape,
                i <= layers0.len(),
                forall|k: int|
                    0 <= k <= layers0.len() ==> self@.activated[k] == transpose_view(
                        forward_act::<T, A>(layers0, input@, k as nat),
                    ),
                forall|k: int|
                    0 <= k < layers0.len() ==> self@.unactivated[k] == forward_unact::<T, A>(
                        layers0,
                        input@,
                        (k + 1) as nat,
                    ),
                weight_grads@.len() == layers0.len(),
                bias_grads@.len() == layers0.len(),
                i > 0 ==> {
                    &&& cwo@ == cwo_at::<T, A>(layers0, input@, last, i - 1)
                    &&& cwo@.wf()
                    &&& cwo@.w == 1
                    &&& cwo@.h == layers0[i - 1].out_shape
                },
                forall|k: int|
                    i <= k < layers0.len() ==> {
                        &&& (#[trigger] weight_grads@[k])@ == wgrad_at::<T, A>(
                            layers0,
                            input@,
                            last,
                            k,
                        )
                        &&& weight_grads@[k]@.wf()
                        &&& weight_grads@[k]@.w == layers0[k].in_shape
                        &&& weight_grads@[k]@.h == layers0[k].out_shape
                    },
                forall|k: int|
                    i <= k < layers0.len() ==> {
                        &&& (#[trigger] bias_grads@[k])@ == bgrad_at::<T, A>(
                            layers0,
                            input@,
                            last,
                            k,
                        )
                        &&& bias_grads@[k]@.wf()
                        &&& bias_grads@[k]@.w == 1
                        &&& bias_grads@[k]@.h == layers0[k].out_shape
                    },
            decreases i,
        {
            i -= 1;
            proof {
                lemma_forward_shapes::<T, A>(layers0, input@, i as nat);
                lemma_forward_shapes::<T, A>(layers0, input@, (i + 1) as nat);
                crate::algebra::lemma_transpose_wf(forward_act::<T, A>(layers0, input@, i as nat));
            }
            proof {
                assert(self.activated@[i as int]@ == self@.activated[i as int]);
                assert(self.unactivated@[i as int]@ == self@.unactivated[i as int]);
                assert(self.layers@[i as int]@ == self@.layers[i as int]);
                assert(self@.activated[i as int] == transpose_view(
                    forward_act::<T, A>(layers0, input@, i as nat),
                ));
                assert(self@.unactivated[i as int] == forward_unact::<T, A>(
                    layers0,
                    input@,
                    (i + 1) as nat,
                ));
            }
            let ghost wg0 = weight_grads@;
            let ghost bg0 = bias_grads@;
            let (wg, bg, ci) = self.layers[i].calculate_grad::<A>(
                &self.activated[i],
                &self.unactivated[i],
                &cwo,
                i == 0,
            );
            weight_grads.set(i, wg);
            bias_grads.set(i, bg);
            proof {
                assert(weight_grads@ =~= wg0.update(i as int, wg));
                assert(bias_grads@ =~= bg0.update(i as int, bg));
                assert(wg@ == wgrad_at::<T, A>(layers0, input@, last, i as int));
                assert(bg@ == bgrad_at::<T, A>(layers0, input@, last, i as int));
            }
            match ci {
                Some(c) => {
                    proof {
                        assert(c@ == cwi_view::<T, A>(
                            self@.layers[i as int],
                            forward_unact::<T, A>(layers0, input@, (i + 1) as nat),
                            cwo_at::<T, A>(layers0, input@, last, i as int),
                        ));
                        assert(c@ == cwo_at::<T, A>(layers0, input@, last, i - 1));
                    }
                    cwo = c;
                },
                None => {},
            }
        }
        (weight_grads, bias_grads)
    }

    /// Mini-batch stochastic gradient descent: one deterministic pass
    /// over the examples (the rows of `x`, with target rows in `y`), in
    /// order, with no shuffling, epochs, or convergence checks.
    ///
    /// Parameters are uniformly re-randomized once, unconditionally, at
    /// the start of the call. For each example the per-layer gradients
    /// are scaled by `learning_rate / batch_size` and subtracted into
    /// zero-initialized accumulators; after every `batch_size`-th example
    /// the accumulators are applied to the parameters and reset. The
    /// contract says exactly that: the final layers are [`sgd_state`]'s
    /// fold over every example row, started from some freshly drawn
    /// initialization whose entries lie in the scalar's draw interval —
    /// so the outcome does not depend on the parameters held at entry,
    /// and beyond the draw itself the pass is deterministic.
    #[verifier::rlimit(100)]
    pub fn sgd(&mut self, x: &Matrix<T>, y: &Matrix<T>, batch_size: usize, learning_rate: T)
        requires
            old(self)@.wf(),
            x@.wf(),
            y@.wf(),
            x@.w == old(self)@.in_width(),
            y@.w == old(self)@.out_width(),
            x@.h == y@.h,
            batch_size >= 1,
        ensures
            final(self)@.wf(),
            final(self)@.layers.len() == old(self)@.layers.len(),
            forall|k: int|
                0 <= k < old(self)@.layers.len() ==> {
                    &&& (#[trigger] final(self)@.layers[k]).in_shape == old(self)@.layers[
                        k
                    ].in_shape
                    &&& final(self)@.layers[k].out_shape == old(self)@.layers[k].out_shape
                },
            exists|init: Seq<LayerView<T>>|
                {
                    &&& init.len() == old(self)@.layers.len()
                    &&& (forall|k: int|
                        0 <= k < init.len() ==> {
                            &&& (#[trigger] init[k]).wf()
                            &&& init[k].in_shape == old(self)@.layers[k].in_shape
                            &&& init[k].out_shape == old(self)@.layers[k].out_shape
                            &&& layer_in_draw_range(init[k])
                        })
                    &&& final(self)@.layers == (#[trigger] sgd_state::<T, A, C>(
                        init,
                        x@,
                        y@,
                        batch_size as int,
                        learning_rate.div_spec(T::from_count_spec(batch_size as int)),
                        x@.h,
                    )).0
                },
    {
        let ghost layers0 = self@.layers;
        self.randomize_params();
        let ghost init = self@.layers;
        let (mut weight_grad, mut bias_grad) = self.init_params();
        let factor = learning_rate.div(T::from_count(batch_size));
        let rows = x.h();
        proof {
            assert(mat_views(weight_grad@) =~= zero_w_accs::<T>(init));
            assert(mat_views(bias_grad@) =~= zero_b_accs::<T>(init));
        }
        let mut i: usize = 0;
        while i < rows
            invariant
                self@.wf(),
                self@.layers.len() == layers0.len(),
                init.len() == layers0.len(),
                forall|k: int|
                    0 <= k < layers0.len() ==> {
                        &&& (#[trigger] init[k]).wf()
                        &&& init[k].in_shape == layers0[k].in_shape
                        &&& init[k].out_shape == layers0[k].out_shape
                        &&& layer_in_draw_range(init[k])
                    },
                forall|k: int|
                    0 <= k < layers0.len() ==> {
                        &&& (#[trigger] self@.layers[k]).in_shape == layers0[k].in_shape
                        &&& self@.layers[k].out_shape == layers0[k].out_shape
                    },
                x@.wf(),
                y@.wf(),
                x@.w == layers0[0].in_shape,
                y@.w == layers0[layers0.len() - 1].out_shape,
                x@.h == y@.h,
                rows == x@.h,
                batch_size >= 1,
                factor == learning_rate.div_spec(T::from_count_spec(batch_size as int)),
                i <= rows,
                weight_grad@.len() == layers0.len(),
                bias_grad@.len() == layers0.len(),
                forall|k: int|
                    0 <= k < layers0.len() ==> {
                        &&& (#[trigger] weight_grad@[k])@.wf()
                        &&& weight_grad@[k]@.w == layers0[k].in_shape
                        &&& weight_grad@[k]@.h == layers0[k].out_shape
                    },
                forall|k: int|
                    0 <= k < layers0.len() ==> {
                        &&& (#[trigger] bias_grad@[k])@.wf()
                        &&& bias_grad@[k]@.w == 1
                        &&& bias_grad@[k]@.h == layers0[k].out_shape
                    },
                self@.layers == sgd_state::<T, A, C>(
                    init,
                    x@,
                    y@,
                    batch_size as int,
                    factor,
                    i as nat,
                ).0,
                mat_views(weight_grad@) == sgd_state::<T, A, C>(
                    init,
                    x@,
                    y@,
                    batch_size as int,
                    factor,
                    i as nat,
                ).1,
                mat_views(bias_grad@) == sgd_state::<T, A, C>(
                    init,
                    x@,
                    y@,
                    batch_size as int,
                    factor,
                    i as nat,
                ).2,
            decreases rows - i,
        {
            let ghost st = sgd_state::<T, A, C>(
                init,
                x@,
                y@,
                batch_size as int,
                factor,
                i as nat,
            );
            let ghost cur_layers = self@.layers;
            let xi_row = match x.clone_row(i) {
                Ok(m) => m,
                Err(_) => vstd::pervasive::unreached(),
            };
            let xi = xi_row.new_transposed();
            let yi = match y.clone_row(i) {
                Ok(m) => m,
                Err(_) => vstd::pervasive::unreached(),
            };
            proof {
                assert(xi_row@ == row_view(x@, i as int));
                assert(yi@ == row_view(y@, i as int));
            }
            let (case_w, case_b) = self.single_case_grad(&xi, &yi);
            let ghost last = last_cwo::<T, A, C>(cur_layers, xi@, yi@);
            let ghost wacc0 = mat_views(weight_grad@);
            let ghost bacc0 = mat_views(bias_grad@);
            accumulate_scaled(&mut weight_grad, &case_w, factor);
            accumulate_scaled(&mut bias_grad, &case_b, factor);
            proof {
                assert forall|k: int|
                    0 <= k < layers0.len() implies #[trigger] mat_views(weight_grad@)[k]
                    == accumulate_w::<T, A, C>(cur_layers, wacc0, xi@, yi@, factor)[k] by {
                    assert(weight_grad@[k]@ == sub_view(
                        wacc0[k],
                        scale_view(case_w@[k]@, factor),
                    ));
                    assert(case_w@[k]@ == wgrad_at::<T, A>(cur_layers, xi@, last, k));
                }
                assert(mat_views(weight_grad@) =~= accumulate_w::<T, A, C>(
                    cur_layers,
                    wacc0,
                    xi@,
                    yi@,
                    factor,
                ));
                assert forall|k: int|
                    0 <= k < layers0.len() implies #[trigger] mat_views(bias_grad@)[k]
                    == accumulate_b::<T, A, C>(cur_layers, bacc0, xi@, yi@, factor)[k] by {
                    assert(bias_grad@[k]@ == sub_view(
                        bacc0[k],
                        scale_view(case_b@[k]@, factor),
                    ));
                    assert(case_b@[k]@ == bgrad_at::<T, A>(cur_layers, xi@, last, k));
                }
                assert(mat_views(bias_grad@) =~= accumulate_b::<T, A, C>(
                    cur_layers,
                    bacc0,
                    xi@,
                    yi@,
                    factor,
                ));
            }
            let ghost wacc1 = mat_views(weight_grad@);
            let ghost bacc1 = mat_views(bias_grad@);
            if (i + 1) % batch_size == 0 {
                self.apply_grad(&weight_grad, &bias_grad);
                proof {
                    assert forall|k: int|
                        0 <= k < layers0.len() implies #[trigger] self@.layers[k] == apply_accs(
                        cur_layers,
                        wacc1,
                        bacc1,
                    )[k] by {
                        assert(self@.layers[k].weights == add_view(
                            cur_layers[k].weights,
                            wacc1[k],
                        ));
                        assert(self@.layers[k].biases == add_view(cur_layers[k].biases, bacc1[k]));
                    }
                    assert(self@.layers =~= apply_accs(cur_layers, wacc1, bacc1));
                }
                let (w2, b2) = self.init_params();
                weight_grad = w2;
                bias_grad = b2;
                proof {
                    assert forall|k: int|
                        0 <= k < layers0.len() implies #[trigger] mat_views(weight_grad@)[k]
                        == zero_w_accs::<T>(cur_layers)[k] by {
                        assert(weight_grad@[k]@ == zero_mat::<T>(
                            self@.layers[k].in_shape,
                            self@.layers[k].out_shape,
                        ));
                        assert(self@.layers[k].in_shape == cur_layers[k].in_shape);
                        assert(self@.layers[k].out_shape == cur_layers[k].out_shape);
                    }
                    assert(mat_views(weight_grad@) =~= zero_w_accs::<T>(cur_layers));
                    assert forall|k: int|
                        0 <= k < layers0.len() implies #[trigger] mat_views(bias_grad@)[k]
                        == zero_b_accs::<T>(cur_layers)[k] by {
                        assert(bias_grad@[k]@ == zero_mat::<T>(1, self@.layers[k].out_shape));
                        assert(self@.layers[k].out_shape == cur_layers[k].out_shape);
                    }
                    assert(mat_views(bias_grad@) =~= zero_b_accs::<T>(cur_layers));
                }
            }
            i += 1;
            proof {
                let nst = sgd_state::<T, A, C>(
                    init,
                    x@,
                    y@,
                    batch_size as int,
                    factor,
                    i as nat,
                );
                assert((i - 1) as nat == (i as nat - 1) as nat);
                assert(sgd_state::<T, A, C>(
                    init,
                    x@,
                    y@,
                    batch_size as int,
                    factor,
                    (i as nat - 1) as nat,
                ) == st);
                assert(transpose_view(row_view(x@, i - 1)) == xi@);
                assert(row_view(y@, i - 1) == yi@);
                assert(i as int % batch_size as int == (i as int) % (batch_size as int));
                if i as int % batch_size as int == 0 {
                    assert(self@.layers == nst.0);
                    assert(mat_views(weight_grad@) == nst.1);
                    assert(mat_views(bias_grad@) == nst.2);
                } else {
                    assert(self@.layers == nst.0);
                    assert(mat_views(weight_grad@) == nst.1);
                    assert(mat_views(bias_grad@) == nst.2);
                }
            }
        }
        proof {
            assert(i as nat == x@.h);
            assert(self@.layers == sgd_state::<T, A, C>(
                init,
                x@,
                y@,
                batch_size as int,
                learning_rate.div_spec(T::from_count_spec(batch_size as int)),
                x@.h,
            ).0);
        }
    }

    /// Redraws every layer's parameters: the architecture (layer count
    /// and shapes) is kept, and every fresh weight and bias entry lies in
    /// the scalar's draw interval.
    #[verifier::rlimit(60)]
    fn randomize_params(&mut self)
        requires
            old(self)@.wf(),
        ensures
            final(self)@.wf(),
            final(self)@.layers.len() == old(self)@.layers.len(),
            forall|k: int|
                0 <= k < old(self)@.layers.len() ==> {
                    &&& (#[trigger] final(self)@.layers[k]).in_shape == old(self)@.layers[
                        k
                    ].in_shape
                    &&& final(self)@.layers[k].out_shape == old(self)@.layers[k].out_shape
                    &&& layer_in_draw_range(final(self)@.layers[k])
                },
    {
        let ghost layers0 = self@.layers;
        let mut k: usize = 0;
        while k < self.layers.len()
            invariant
                self@.layers.len() == layers0.len(),
                layers0.len() >= 1,
                self@.wf(),
                self@.activated.len() == layers0.len() + 1,
                self@.unactivated.len() == layers0.len(),
                k <= layers0.len(),
                forall|j: int| k <= j < layers0.len() ==> #[trigger] self@.layers[j] == layers0[j],
                forall|j: int|
                    0 <= j < k ==> {
                        &&& (#[trigger] self@.layers[j]).in_shape == layers0[j].in_shape
                        &&& self@.layers[j].out_shape == layers0[j].out_shape
                        &&& layer_in_draw_range(self@.layers[j])
                    },
            decreases layers0.len() - k,
        {
            let ghost before = self@.layers;
            proof {
                assert(forall|j: int|
                    k <= j < layers0.len() ==> #[trigger] before[j] == layers0[j]);
                assert(forall|j: int|
                    0 <= j < layers0.len() ==> (#[trigger] before[j]).wf());
                assert(forall|j: int|
                    0 < j < layers0.len() ==> (#[trigger] before[j]).in_shape == before[
                        j - 1
                    ].out_shape);
                assert(forall|j: int|
                    0 <= j < k ==> {
                        &&& (#[trigger] before[j]).in_shape == layers0[j].in_shape
                        &&& before[j].out_shape == layers0[j].out_shape
                        &&& layer_in_draw_range(before[j])
                    });
                assert(self.layers@[k as int]@ == before[k as int]);
            }
            self.layers[k].randomize_params();
            let ghost lk = self.layers@[k as int]@;
            proof {
                assert(self@.layers =~= before.update(k as int, lk));
                assert(lk.wf());
                assert(lk.in_shape == layers0[k as int].in_shape);
                assert(lk.out_shape == layers0[k as int].out_shape);
                assert(layer_in_draw_range(lk));
            }
            k += 1;
            proof {
                assert forall|j: int|
                    k <= j < layers0.len() implies #[trigger] self@.layers[j] == layers0[j] by {
                    assert(self@.layers[j] == before[j]);
                }
                assert forall|j: int|
                    0 <= j < k implies {
                        &&& (#[trigger] self@.layers[j]).in_shape == layers0[j].in_shape
                        &&& self@.layers[j].out_shape == layers0[j].out_shape
                        &&& layer_in_draw_range(self@.layers[j])
                    } by {
                    if j < k - 1 {
                        assert(self@.layers[j] == before[j]);
                    } else {
                        assert(self@.layers[j] == lk);
                    }
                }
                assert forall|j: int|
                    0 <= j < layers0.len() implies (#[trigger] self@.layers[j]).wf() by {
                    if j != k - 1 {
                        assert(self@.layers[j] == before[j]);
                    }
                }
                assert forall|j: int|
                    0 < j < layers0.len() implies (#[trigger] self@.layers[j]).in_shape
                        == self@.layers[j - 1].out_shape by {
                    assert(before[j].in_shape == before[j - 1].out_shape);
                    assert(self@.layers[j].in_shape == before[j].in_shape);
                    assert(self@.layers[j - 1].out_shape == before[j - 1].out_shape);
                }
            }
        }
    }
}

/// Subtracts the `factor`-scaled deltas elementwise into the
/// accumulators, one matched-shape pair per layer.
fn accumulate_scaled<T: Scalar>(accs: &mut Vec<Matrix<T>>, deltas: &Vec<Matrix<T>>, factor: T)
    requires
        old(accs)@.len() == deltas@.len(),
        forall|k: int| 0 <= k < deltas@.len() ==> (#[trigger] deltas@[k])@.wf(),
        forall|k: int|
            0 <= k < old(accs)@.len() ==> (#[trigger] old(accs)@[k])@.wf()
                && old(accs)@[k]@.same_shape(deltas@[k]@),
    ensures
        final(accs)@.len() == old(accs)@.len(),
        forall|k: int|
            0 <= k < old(accs)@.len() ==> (#[trigger] final(accs)@[k])@ == sub_view(
                old(accs)@[k]@,
                scale_view(deltas@[k]@, factor),
            ),
{
    let ghost accs0 = accs@;
    let mut j: usize = 0;
    while j < deltas.len()
        invariant
            accs@.len() == accs0.len(),
            accs0.len() == deltas@.len(),
            forall|k: int| 0 <= k < deltas@.len() ==> (#[trigger] deltas@[k])@.wf(),
            forall|k: int|
                0 <= k < accs0.len() ==> (#[trigger] accs0[k])@.wf() && accs0[k]@.same_shape(
                    deltas@[k]@,
                ),
            j <= deltas@.len(),
            forall|k: int| j <= k < accs0.len() ==> #[trigger] accs@[k] == accs0[k],
            forall|k: int|
                0 <= k < j ==> (#[trigger] accs@[k])@ == sub_view(
                    accs0[k]@,
                    scale_view(deltas@[k]@, factor),
                ),
        decreases deltas@.len() - j,
    {
        let ghost before = accs@;
        let scaled = deltas[j].scale(factor);
        let updated = match accs[j].sub(&scaled) {
            Ok(m) => m,
            Err(_) => vstd::pervasive::unreached(),
        };
        accs.set(j, updated);
        j += 1;
        proof {
            assert(accs@ =~= before.update(j - 1, updated));
        }
    }
}

/// A `w x h` matrix of fresh parameter draws, every entry within the
/// scalar's draw interval.
fn draw_matrix<T: Scalar>(w: usize, h: usize) -> (r: Matrix<T>)
    requires
        w * h <= usize::MAX,
    ensures
        r@.wf(),
        r@.w == w,
        r@.h == h,
        forall|n: int| 0 <= n < r@.data.len() ==> in_draw_range(#[trigger] r@.data[n]),
{
    let len = w * h;
    let mut data: Vec<T> = Vec::new();
    let mut n: usize = 0;
    while n < len
        invariant
            n <= len,
            data@.len() == n,
            forall|k: int| 0 <= k < n ==> in_draw_range(#[trigger] data@[k]),
        decreases len - n,
    {
        data.push(T::draw_param());
        n += 1;
    }
    Matrix::from_raw(data, w, h)
}

} // verus!
