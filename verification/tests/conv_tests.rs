use rlnet::layers::ConvLayer;
use rlnet::optimizers::Optimizer;
use rlnet::nn::{NeuralNetwork, NetError};
use rlnet::tensor::Tensor;

const ONE: i64 = 4294967296;

fn fx(x: f64) -> i64 {
    (x * ONE as f64) as i64
}

fn to_f(v: i64) -> f64 {
    v as f64 / ONE as f64
}

#[test]
fn conv_forward_reference() {
    // a single 2x2 kernel over a 3x3 input, no padding: four windows
    let mut c = ConvLayer::new(3, 3, 2, 2, 1, 0, fx(0.01), &Optimizer::Sgd);
    c.kernels = vec![fx(1.0), fx(0.0), fx(0.0), fx(-1.0)];
    let x: Vec<i64> = (1..=9).map(|v| fx(v as f64)).collect();
    let out = c.forward(&x);
    assert_eq!(out.len(), 4);
    // window at (i,j): x[i][j] - x[i+1][j+1]
    for v in &out {
        assert!((to_f(*v) + 4.0).abs() < 1e-6, "got {}", to_f(*v));
    }
}

#[test]
fn conv_padding_grows_output() {
    // a 3x3 kernel over a 2x2 input with padding 1: a 2x2 output again
    let mut c = ConvLayer::new(2, 2, 3, 3, 1, 1, fx(0.01), &Optimizer::Sgd);
    c.kernels = vec![fx(1.0); 9];
    let x = vec![fx(1.0), fx(2.0), fx(3.0), fx(4.0)];
    let out = c.forward(&x);
    assert_eq!(out.len(), 4);
    // every window sums all four entries that fall inside the input
    for v in &out {
        assert!((to_f(*v) - 10.0).abs() < 1e-6, "got {}", to_f(*v));
    }
}

#[test]
fn conv_backward_shape_roundtrip_and_descent() {
    let mut c = ConvLayer::new(4, 4, 2, 2, 3, 0, fx(0.5), &Optimizer::Sgd);
    let x: Vec<i64> = (0..16).map(|v| fx(v as f64 / 16.0)).collect();
    let out = c.forward(&x);
    assert_eq!(out.len(), 3 * 3 * 3);
    let before = c.kernels.clone();
    let down = c.backward(&vec![fx(0.5); 27]);
    assert_eq!(down.len(), x.len());
    assert_ne!(c.kernels, before, "kernels must move under a nonzero gradient");
}

#[test]
fn conv_downstream_gradient_reference() {
    // one 1x1 kernel of weight 2: forward doubles, backward doubles too
    let mut c = ConvLayer::new(2, 2, 1, 1, 1, 0, fx(0.01), &Optimizer::Sgd);
    c.kernels = vec![fx(2.0)];
    let x = vec![fx(0.1), fx(0.2), fx(0.3), fx(0.4)];
    let out = c.forward(&x);
    for (o, xi) in out.iter().zip(x.iter()) {
        assert!((to_f(*o) - 2.0 * to_f(*xi)).abs() < 1e-6);
    }
    let down = c.backward(&vec![fx(1.0); 4]);
    for d in &down {
        assert!((to_f(*d) - 2.0).abs() < 1e-6, "got {}", to_f(*d));
    }
}

#[test]
fn add_convolution_validation() {
    let mut nn = NeuralNetwork::new2d((6, 6), "bce".to_string(), "adam".to_string()).unwrap();
    assert_eq!(
        nn.add_convolution((3, 3), 0, 0).unwrap_err(),
        NetError::InvalidParameter
    );
    // a rank-one network cannot take a convolution
    let mut flat = NeuralNetwork::new1d(36, "bce".to_string(), "adam".to_string()).unwrap();
    assert_eq!(
        flat.add_convolution((3, 3), 4, 0).unwrap_err(),
        NetError::ShapeMismatch
    );
    // a kernel larger than the padded input is refused
    assert_eq!(
        nn.add_convolution((9, 9), 4, 0).unwrap_err(),
        NetError::ShapeMismatch
    );
    assert!(nn.add_convolution((3, 3), 4, 0).is_ok());
    // only one convolution, at the front
    assert_eq!(
        nn.add_convolution((3, 3), 4, 0).unwrap_err(),
        NetError::ShapeMismatch
    );
}

#[test]
fn conv_network_predicts_deterministically() {
    let mut nn = NeuralNetwork::new2d((6, 6), "bce".to_string(), "adam".to_string()).unwrap();
    nn.add_convolution((3, 3), 8, 0).unwrap();
    nn.add_activation("sigmoid").unwrap();
    nn.add_flatten();
    nn.add_dense(5).unwrap();
    nn.add_activation("sigmoid").unwrap();
    let board = Tensor::new(vec![6, 6], (0..36).map(|v| fx(v as f64 / 36.0)).collect()).unwrap();
    let a = nn.predict2d(&board).unwrap();
    let b = nn.predict2d(&board).unwrap();
    assert_eq!(a, b);
    assert_eq!(a.len(), 5);
    assert!(nn.train2d(&board, vec![fx(1.0); 5]).is_ok());
}
