//! Tests of the feed-forward network, driven at a 64-bit float scalar
//! supplied here (the crate itself carries no floating point), and at the
//! crate's own `i64` scalar.

use ml::algebra::{Matrix, ShapeError};
use ml::nn::activations::{Activation, ReLU, Sigmoid, Softplus};
use ml::nn::cost::{Cost, SumSquared};
use ml::nn::feedforward::{FFNet, Layer};
use ml::scalar::Scalar;
use rand::{Rng, SeedableRng};

/// A 64-bit float scalar for the generic engine.
#[derive(Clone, Copy, Debug, PartialEq)]
struct F(f64);

impl Scalar for F {
    fn zero() -> F {
        F(0.0)
    }

    fn one() -> F {
        F(1.0)
    }

    fn plus(self, rhs: F) -> F {
        F(self.0 + rhs.0)
    }

    fn minus(self, rhs: F) -> F {
        F(self.0 - rhs.0)
    }

    fn times(self, rhs: F) -> F {
        F(self.0 * rhs.0)
    }

    fn div(self, rhs: F) -> F {
        F(self.0 / rhs.0)
    }

    fn lt(self, rhs: F) -> bool {
        self.0 < rhs.0
    }

    fn from_count(n: usize) -> F {
        F(n as f64)
    }

    /// A fixed draw stands in for a seeded generator: training runs are
    /// deterministic.
    fn draw_param() -> F {
        F(0.25)
    }
}

impl Activation<F> for Sigmoid {
    fn calc(x: F) -> F {
        if x.0 < -420.0 {
            F(0.0)
        } else {
            F(1.0 / (1.0 + (-x.0).exp()))
        }
    }

    fn prime(x: F) -> F {
        let s = <Sigmoid as Activation<F>>::calc(x);
        F(s.0 * (1.0 - s.0))
    }
}

impl Activation<F> for Softplus {
    fn calc(x: F) -> F {
        if x.0 > 420.0 {
            x
        } else {
            F((x.0.exp() + 1.0).ln())
        }
    }

    fn prime(x: F) -> F {
        <Sigmoid as Activation<F>>::calc(x)
    }
}

fn close(a: f64, b: f64, tol: f64) -> bool {
    (a - b).abs() <= tol
}

#[test]
fn computation() {
    let error_margin: f64 = 0.00001;
    let input: Matrix<F> = Matrix::new(vec![F(-1.9), F(2.5)], 1, 2).unwrap();
    let expected = [0.6, 1.03748_f64, 0.64565_f64];

    let mut relu_net = FFNet::<F, ReLU, SumSquared>::new(vec![2, 1]);
    let result = relu_net.pred_single(input.clone());
    let r = result.index(0, 0).unwrap().0;
    assert!(r <= expected[0] + error_margin, "result[0] = {}", r);
    assert!(r >= expected[0] - error_margin, "result[0] = {}", r);

    let mut softplus_net = FFNet::<F, Softplus, SumSquared>::new(vec![2, 1]);
    let result = softplus_net.pred_single(input.clone());
    let r = result.index(0, 0).unwrap().0;
    assert!(r <= expected[1] + error_margin, "result[0] = {}", r);
    assert!(r >= expected[1] - error_margin, "result[0] = {}", r);

    let mut sigmoid_net = FFNet::<F, Sigmoid, SumSquared>::new(vec![2, 1]);
    let result = sigmoid_net.pred_single(input.clone());
    let r = result.index(0, 0).unwrap().0;
    assert!(r <= expected[2] + error_margin, "result[0] = {}", r);
    assert!(r >= expected[2] - error_margin, "result[0] = {}", r);
}

#[test]
fn sigmoid_prime_matches_its_definition() {
    let samples = [
        -100000.0, -1000.0, -420.5, -100.0, -10.0, -2.5, -1.0, -0.1, 0.0, 0.1, 1.0, 2.5, 10.0,
        100.0, 420.5, 1000.0, 100000.0,
    ];
    for &x in samples.iter() {
        let c = <Sigmoid as Activation<F>>::calc(F(x)).0;
        let p = <Sigmoid as Activation<F>>::prime(F(x)).0;
        assert!(close(p, c * (1.0 - c), 0.0), "x = {}", x);
    }
}

#[test]
fn relu_prime_is_a_step() {
    for &x in [0.001, 0.5, 3.0, 1.0e12].iter() {
        assert_eq!(<ReLU as Activation<F>>::prime(F(x)), F(1.0), "x = {}", x);
    }
    for &x in [0.0, -0.001, -0.5, -3.0, -1.0e12].iter() {
        assert_eq!(<ReLU as Activation<F>>::prime(F(x)), F(0.0), "x = {}", x);
    }
}

#[test]
fn cost_of_prediction_against_itself_is_zero() {
    let pred = Matrix::new(vec![F(0.3), F(-1.7), F(42.0)], 3, 1).unwrap();
    assert_eq!(<SumSquared as Cost<F>>::calc(&pred, &pred), F(0.0));
}

#[test]
fn layer_pred_computes_affine_then_activation() {
    let layer = Layer::<i64>::new(2, 2);
    let input = Matrix::new(vec![3i64, -5], 1, 2).unwrap();
    let (unactivated, activated) = layer.pred::<ReLU>(&input);
    // Weights start at one and biases at zero: both rows sum the input.
    assert_eq!(unactivated.iter(), &vec![-2i64, -2]);
    assert_eq!(activated.iter(), &vec![0i64, 0]);
}

#[test]
fn layer_apply_grad_adds_deltas_and_rejects_mismatches() {
    let mut layer = Layer::<i64>::new(2, 1);
    let wd = Matrix::new(vec![3i64, -4], 2, 1).unwrap();
    let bd = Matrix::new(vec![7i64], 1, 1).unwrap();
    layer.apply_grad(&wd, &bd).unwrap();
    assert_eq!(layer.weights().iter(), &vec![4i64, -3]);
    assert_eq!(layer.biases().iter(), &vec![7i64]);
    // A delta of the wrong shape is rejected and changes nothing.
    let bad = Matrix::new(vec![1i64, 2, 3], 3, 1).unwrap();
    assert_eq!(
        layer.apply_grad(&bad, &bd).unwrap_err(),
        ShapeError::Dims { left_w: 2, left_h: 1, right_w: 3, right_h: 1 }
    );
    assert_eq!(layer.weights().iter(), &vec![4i64, -3]);
    assert_eq!(layer.biases().iter(), &vec![7i64]);
}

fn cost_of(net: &mut FFNet<F, Sigmoid, SumSquared>, x: &Matrix<F>, y: &Matrix<F>) -> f64 {
    let pred = net.pred_single(x.clone());
    <SumSquared as Cost<F>>::calc(&pred, y).0
}

fn zero_deltas(shapes: &[(usize, usize)]) -> Vec<Matrix<F>> {
    shapes.iter().map(|&(w, h)| Matrix::new_uniform(F(0.0), w, h)).collect()
}

/// Nudges one weight entry of one layer by `eps`.
fn nudge_weight(
    net: &mut FFNet<F, Sigmoid, SumSquared>,
    weight_shapes: &[(usize, usize)],
    bias_shapes: &[(usize, usize)],
    layer: usize,
    row: usize,
    col: usize,
    eps: f64,
) {
    let mut wd = zero_deltas(weight_shapes);
    wd[layer].set(row, col, F(eps)).unwrap();
    let bd = zero_deltas(bias_shapes);
    net.apply_grad(&wd, &bd);
}

#[test]
fn analytic_gradient_matches_finite_differences() {
    let weight_shapes = [(2usize, 2usize), (2, 1)];
    let bias_shapes = [(1usize, 2usize), (1, 1)];
    let mut net = FFNet::<F, Sigmoid, SumSquared>::new(vec![2, 2, 1]);

    // Give the constructed network (weights one, biases zero) a spread of
    // deterministic pseudo-random parameters.
    let mut rng = rand::rngs::StdRng::seed_from_u64(7);
    let wd: Vec<Matrix<F>> = weight_shapes
        .iter()
        .map(|&(w, h)| {
            let data = (0..w * h).map(|_| F(rng.gen_range(-0.9..-0.1))).collect();
            Matrix::new(data, w, h).unwrap()
        })
        .collect();
    let bd: Vec<Matrix<F>> = bias_shapes
        .iter()
        .map(|&(w, h)| {
            let data = (0..w * h).map(|_| F(rng.gen_range(-0.3..0.3))).collect();
            Matrix::new(data, w, h).unwrap()
        })
        .collect();
    net.apply_grad(&wd, &bd);

    let x = Matrix::new(vec![F(0.4), F(-0.3)], 1, 2).unwrap();
    let y = Matrix::new(vec![F(1.0)], 1, 1).unwrap();

    let (weight_grads, _bias_grads) = net.single_case_grad(&x, &y);

    let eps = 1.0e-5;
    for (layer, &(w, h)) in weight_shapes.iter().enumerate() {
        for row in 0..h {
            for col in 0..w {
                nudge_weight(&mut net, &weight_shapes, &bias_shapes, layer, row, col, eps);
                let c_plus = cost_of(&mut net, &x, &y);
                nudge_weight(&mut net, &weight_shapes, &bias_shapes, layer, row, col, -2.0 * eps);
                let c_minus = cost_of(&mut net, &x, &y);
                nudge_weight(&mut net, &weight_shapes, &bias_shapes, layer, row, col, eps);
                let numeric = (c_plus - c_minus) / (2.0 * eps);
                let analytic = weight_grads[layer].index(row, col).unwrap().0;
                assert!(
                    close(analytic, numeric, 1.0e-4),
                    "layer {} entry ({}, {}): analytic {} vs numeric {}",
                    layer,
                    row,
                    col,
                    analytic,
                    numeric
                );
            }
        }
    }
}

#[test]
fn training_lowers_the_cost() {
    // A small linearly separable set: the label is 1 when the coordinates
    // sum past one.
    let points = [
        (0.0, 0.0, 0.0),
        (0.2, 0.1, 0.0),
        (0.1, 0.3, 0.0),
        (0.3, 0.2, 0.0),
        (1.5, 1.2, 1.0),
        (1.0, 1.4, 1.0),
        (2.0, 1.1, 1.0),
        (1.2, 1.0, 1.0),
    ];
    let mut flat_x: Vec<F> = Vec::new();
    let mut flat_y: Vec<F> = Vec::new();
    for &(a, b, label) in points.iter() {
        flat_x.push(F(a));
        flat_x.push(F(b));
        flat_y.push(F(label));
    }
    let x = Matrix::new(flat_x, 2, 8).unwrap();
    let y = Matrix::new(flat_y, 1, 8).unwrap();

    let mut net = FFNet::<F, Sigmoid, SumSquared>::new(vec![2, 1]);

    let cost_on_set = |net: &mut FFNet<F, Sigmoid, SumSquared>| -> f64 {
        let mut total = 0.0;
        for i in 0..8 {
            let mut xi = x.clone_row(i).unwrap();
            xi.transpose();
            let yi = y.clone_row(i).unwrap();
            let pred = net.pred_single(xi);
            total += <SumSquared as Cost<F>>::calc(&pred, &yi).0;
        }
        total
    };

    let before = cost_on_set(&mut net);
    net.sgd(&x, &y, 1, F(1.0));
    let after = cost_on_set(&mut net);
    assert!(after < before, "cost before {} vs after {}", before, after);
}

#[test]
fn integer_network_trains_with_shapes_kept() {
    let mut net = FFNet::<i64, ReLU, SumSquared>::new(vec![2, 3, 1]);
    let x = Matrix::new(vec![1i64, 2, 3, 4], 2, 2).unwrap();
    let y = Matrix::new(vec![5i64, 6], 1, 2).unwrap();
    net.sgd(&x, &y, 2, 1);
    let input = Matrix::new(vec![1i64, 1], 1, 2).unwrap();
    let out = net.pred_single(input);
    assert_eq!(out.h(), 1);
    assert_eq!(out.w(), 1);
}
