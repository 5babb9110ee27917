use rlnet::nn::{NeuralNetwork, NetError};
use rlnet::tensor::Tensor;
use rlnet::layers::{Layer, DenseLayer};
use rlnet::optimizers::Optimizer;

const ONE: i64 = 4294967296;

fn fx(x: f64) -> i64 {
    (x * ONE as f64) as i64
}

fn expect_err(r: Result<NeuralNetwork, NetError>) -> NetError {
    match r {
        Err(e) => e,
        Ok(_) => panic!("expected an error"),
    }
}

#[test]
fn tensor_shape_validation() {
    assert!(Tensor::new(vec![2, 3], vec![0; 6]).is_ok());
    assert!(Tensor::new(vec![2, 3], vec![0; 5]).is_err());
    assert!(Tensor::new(vec![1, 1, 1, 1, 1], vec![0]).is_err());
    assert!(Tensor::new(vec![0], vec![]).is_err());
    assert!(Tensor::new(vec![], vec![]).is_err());
}

#[test]
fn unknown_names_are_refused() {
    let e = expect_err(NeuralNetwork::new1d(2, "huber".to_string(), "adam".to_string()));
    assert_eq!(e, NetError::UnknownVariant);
    let e = expect_err(NeuralNetwork::new1d(2, "bce".to_string(), "lbfgs".to_string()));
    assert_eq!(e, NetError::UnknownVariant);
    assert!(NeuralNetwork::new1d(2, "mse".to_string(), "noop".to_string()).is_ok());
    assert!(NeuralNetwork::new1d(2, "cce".to_string(), "momentum".to_string()).is_ok());
    assert!(NeuralNetwork::new1d(2, "bce".to_string(), "adagrad".to_string()).is_ok());
    assert!(NeuralNetwork::new1d(2, "bce".to_string(), "rmsprop".to_string()).is_ok());
}

#[test]
fn invalid_hyperparameters_are_refused() {
    let mut nn = NeuralNetwork::new1d(2, "bce".to_string(), "sgd".to_string()).unwrap();
    assert_eq!(nn.set_batch_size(0).unwrap_err(), NetError::InvalidParameter);
    assert_eq!(nn.set_learning_rate(0).unwrap_err(), NetError::InvalidParameter);
    assert_eq!(nn.set_learning_rate(-5).unwrap_err(), NetError::InvalidParameter);
    assert!(nn.set_learning_rate(fx(0.05)).is_ok());
    assert_eq!(nn.add_dense(0).unwrap_err(), NetError::InvalidParameter);
    assert_eq!(nn.add_activation("tanh").unwrap_err(), NetError::UnknownVariant);
}

#[test]
fn shape_mismatches_propagate() {
    let mut nn = NeuralNetwork::new1d(2, "bce".to_string(), "sgd".to_string()).unwrap();
    nn.add_dense(1).unwrap();
    assert_eq!(nn.predict1d(vec![fx(1.0)]).unwrap_err(), NetError::ShapeMismatch);
    assert_eq!(
        nn.train1d(vec![fx(1.0), fx(0.0)], vec![fx(1.0), fx(1.0)]).unwrap_err(),
        NetError::ShapeMismatch
    );
    assert!(nn.train1d(vec![fx(1.0), fx(0.0)], vec![fx(1.0)]).is_ok());
    // a layer whose expected input disagrees with the stack is pushed back
    let bad = DenseLayer::new(7, 3, fx(0.01), &Optimizer::Sgd);
    assert_eq!(nn.store_layer(Layer::Dense(bad)).unwrap_err(), NetError::ShapeMismatch);
}

#[test]
fn predict_is_idempotent() {
    // two predictions with no training in between return identical output
    let mut nn = NeuralNetwork::new1d(3, "mse".to_string(), "adam".to_string()).unwrap();
    nn.add_dense(4).unwrap();
    nn.add_activation("sigmoid").unwrap();
    nn.add_dense(2).unwrap();
    nn.add_activation("sigmoid").unwrap();
    let x = vec![fx(0.1), fx(-0.4), fx(0.9)];
    let a = nn.predict1d(x.clone()).unwrap();
    let b = nn.predict1d(x.clone()).unwrap();
    assert_eq!(a, b);
    // training does change the answer eventually
    for _ in 0..50 {
        nn.train1d(x.clone(), vec![fx(1.0), fx(0.0)]).unwrap();
    }
    let c = nn.predict1d(x).unwrap();
    assert_ne!(a, c);
}

#[test]
fn two_d_round_trip() {
    let mut nn = NeuralNetwork::new2d((2, 2), "bce".to_string(), "adam".to_string()).unwrap();
    nn.add_flatten();
    nn.add_dense(3).unwrap();
    nn.add_activation("sigmoid").unwrap();
    let board = Tensor::new(vec![2, 2], vec![fx(1.0), 0, 0, fx(1.0)]).unwrap();
    let out = nn.predict2d(&board).unwrap();
    assert_eq!(out.len(), 3);
    assert!(nn.train2d(&board, vec![fx(1.0), fx(0.0), fx(0.5)]).is_ok());
    let flat = Tensor::new(vec![4], vec![0; 4]).unwrap();
    assert_eq!(nn.predict2d(&flat).unwrap_err(), NetError::ShapeMismatch);
}

#[test]
fn relu_network_trains() {
    let mut nn = NeuralNetwork::new1d(1, "mse".to_string(), "sgd".to_string()).unwrap();
    nn.set_learning_rate(fx(0.1)).unwrap();
    nn.add_dense(3).unwrap();
    nn.add_activation("relu").unwrap();
    nn.add_dense(1).unwrap();
    let x = vec![fx(1.0)];
    for _ in 0..200 {
        nn.train1d(x.clone(), vec![fx(0.75)]).unwrap();
    }
    let out = nn.predict1d(x).unwrap();
    let got = out[0] as f64 / ONE as f64;
    assert!((got - 0.75).abs() < 0.05, "got {}", got);
}
