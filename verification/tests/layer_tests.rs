use rlnet::layers::{DenseLayer, SigmoidLayer, ReluLayer, FlattenLayer, Layer};
use rlnet::optimizers::Optimizer;
use rlnet::fx::FX_HALF;
use rlnet::nn::NetError;

const ONE: i64 = 4294967296;

fn fx(x: f64) -> i64 {
    (x * ONE as f64) as i64
}

fn to_f(v: i64) -> f64 {
    v as f64 / ONE as f64
}

#[test]
fn dense_forward_reference() {
    let mut d = DenseLayer::new(2, 1, fx(0.01), &Optimizer::Sgd);
    d.weights = vec![fx(0.3), fx(-0.2)];
    d.bias = vec![fx(0.1)];
    let out = d.forward(&vec![fx(1.0), fx(2.0)]);
    // 0.3 * 1 - 0.2 * 2 + 0.1 = 0
    assert!(to_f(out[0]).abs() < 1e-6);
}

#[test]
fn dense_backward_shape_roundtrip() {
    // the downstream gradient has the shape of the input, for every variant
    let mut d = DenseLayer::new(3, 2, fx(0.01), &Optimizer::Sgd);
    let x = vec![fx(0.1), fx(0.2), fx(0.3)];
    let out = d.forward(&x);
    assert_eq!(out.len(), 2);
    let down = d.backward(&vec![fx(1.0), fx(-1.0)]);
    assert_eq!(down.len(), x.len());

    let mut s = SigmoidLayer::new();
    let so = s.forward(&x);
    assert_eq!(so.len(), 3);
    assert_eq!(s.backward(&vec![fx(1.0); 3]).len(), x.len());

    let mut r = ReluLayer::new();
    let ro = r.forward(&x);
    assert_eq!(ro.len(), 3);
    assert_eq!(r.backward(&vec![fx(1.0); 3]).len(), x.len());

    let mut f = FlattenLayer::new();
    let fo = f.forward(&x);
    assert_eq!(fo.len(), 3);
    assert_eq!(f.backward(&vec![fx(1.0); 3]).len(), x.len());
}

#[test]
fn dense_analytic_gradient_matches_finite_difference() {
    // the downstream gradient of a dense layer against a central difference
    let mut d = DenseLayer::new(2, 1, fx(0.01), &Optimizer::Sgd);
    d.weights = vec![fx(0.37), fx(-0.21)];
    d.bias = vec![fx(0.05)];
    let x = vec![fx(0.4), fx(0.6)];
    let h = 1e-3;
    let mut numeric = [0.0f64; 2];
    for j in 0..2 {
        let mut xp = x.clone();
        let mut xm = x.clone();
        xp[j] += fx(h);
        xm[j] -= fx(h);
        let fp = to_f(d.forward(&xp)[0]);
        let fm = to_f(d.forward(&xm)[0]);
        numeric[j] = (fp - fm) / (2.0 * h);
    }
    d.forward(&x);
    let analytic = d.backward(&vec![fx(1.0)]);
    for j in 0..2 {
        assert!(
            (to_f(analytic[j]) - numeric[j]).abs() < 1e-3,
            "entry {}: analytic {} numeric {}",
            j,
            to_f(analytic[j]),
            numeric[j]
        );
    }
}

#[test]
fn sigmoid_layer_forward_values() {
    let mut s = SigmoidLayer::new();
    let out = s.forward(&vec![0, fx(100.0), fx(-100.0)]);
    assert_eq!(out[0], FX_HALF);
    assert!(out[1] >= 1 && out[1] <= ONE - 1);
    assert!(out[2] >= 1 && out[2] <= ONE - 1);
    assert!(to_f(out[1]) > 0.999);
    assert!(to_f(out[2]) < 0.001);
    assert_eq!(s.get_type(), "Sigmoid Layer");
}

#[test]
fn relu_layer_zeroes_negatives() {
    let mut r = ReluLayer::new();
    let out = r.forward(&vec![fx(-1.0), fx(2.0), 0]);
    assert_eq!(out, vec![0, fx(2.0), 0]);
    let back = r.backward(&vec![fx(5.0), fx(5.0), fx(5.0)]);
    assert_eq!(back, vec![0, fx(5.0), 0]);
}

#[test]
fn dense_layer_learns_with_descent() {
    // one gradient step moves the weights against the gradient
    let mut d = DenseLayer::new(1, 1, fx(0.5), &Optimizer::Sgd);
    d.weights = vec![fx(0.0)];
    d.bias = vec![fx(0.0)];
    d.forward(&vec![fx(1.0)]);
    d.backward(&vec![fx(1.0)]);
    // w <- w - 0.5 * (1 * 1) = -0.5
    assert!((to_f(d.weights[0]) + 0.5).abs() < 1e-6);
    let _ = Layer::Dense(d);
}

#[test]
fn layer_error_conditions() {
    // backward before any forward is an uninitialized-state error
    let mut s = Layer::Sigmoid(SigmoidLayer::new());
    assert_eq!(s.backward_checked(&vec![fx(1.0)]).unwrap_err(), NetError::UninitializedState);
    // a forward input of the wrong width is a shape mismatch
    let mut d = Layer::Dense(DenseLayer::new(2, 1, fx(0.01), &Optimizer::Sgd));
    assert_eq!(d.forward_checked(&vec![fx(1.0)]).unwrap_err(), NetError::ShapeMismatch);
    assert!(d.forward_checked(&vec![fx(1.0), fx(0.5)]).is_ok());
    // a gradient of the wrong width is a shape mismatch too
    assert_eq!(
        d.backward_checked(&vec![fx(1.0), fx(1.0)]).unwrap_err(),
        NetError::ShapeMismatch
    );
    assert!(d.backward_checked(&vec![fx(1.0)]).is_ok());
}
