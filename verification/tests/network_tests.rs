use rlnet::nn::NeuralNetwork;
use rand::Rng;

const ONE: i64 = 4294967296;

fn fx(x: f64) -> i64 {
    (x * ONE as f64) as i64
}

fn new(i_dim: usize, bs: usize, lr: f64) -> NeuralNetwork {
    let mut nn = NeuralNetwork::new1d(i_dim, "bce".to_string(), "adam".to_string()).unwrap();
    nn.set_batch_size(bs).unwrap();
    nn.set_learning_rate(fx(lr)).unwrap();
    nn.add_dense(2).unwrap(); //Dense with 2 output neurons
    nn.add_activation("sigmoid").unwrap(); //Sigmoid
    nn.add_dense(1).unwrap(); //Dense with 1 output neuron
    nn.add_activation("sigmoid").unwrap(); //Sigmoid
    nn
}

fn test(mut nn: NeuralNetwork, input: &[Vec<i64>], feedback: &[Vec<i64>], testname: String) {
    for i in 0..input.len() {
        let prediction = nn.predict1d(input[i].clone()).unwrap();
        let diff = nn.loss_from_input(input[i].clone(), feedback[i].clone()).unwrap();
        assert!(
            diff < fx(0.2),
            "failed learning: {}. Achieved loss: {}\n input: {:?} output was: {:?} should {:?}",
            testname,
            diff,
            input[i],
            prediction,
            feedback[i]
        );
    }
}

fn train(nn: &mut NeuralNetwork, num: usize, input: &[Vec<i64>], feedback: &[Vec<i64>]) {
    for _ in 0..num {
        let pos = rand::thread_rng().gen_range(0..input.len());
        nn.train1d(input[pos].clone(), feedback[pos].clone()).unwrap();
    }
}

fn rows(vals: &[&[f64]]) -> Vec<Vec<i64>> {
    vals.iter().map(|r| r.iter().map(|&v| fx(v)).collect()).collect()
}

#[test]
fn and() {
    let input = rows(&[&[0., 0.], &[0., 1.], &[1., 0.], &[1., 1.], &[1., 1.], &[1., 1.]]); // AND
    let feedback = rows(&[&[0.], &[0.], &[0.], &[1.], &[1.], &[1.]]);
    let mut nn = new(2, 6, 0.1);
    train(&mut nn, 1_000, &input, &feedback);
    test(nn, &input, &feedback, "and".to_string());
}

#[test]
fn or() {
    let input = rows(&[&[0., 0.], &[0., 0.], &[0., 0.], &[0., 1.], &[1., 0.], &[1., 1.]]); // OR
    let feedback = rows(&[&[0.], &[0.], &[0.], &[1.], &[1.], &[1.]]);
    let mut nn = new(2, 6, 0.1);
    train(&mut nn, 5000, &input, &feedback);
    test(nn, &input, &feedback, "or".to_string());
}

#[test]
fn not() {
    let input = rows(&[&[0.], &[1.]]);
    let feedback = rows(&[&[1.], &[0.]]);
    let mut nn = new(1, 1, 0.1);
    train(&mut nn, 500, &input, &feedback);
    test(nn, &input, &feedback, "not".to_string());
}

#[test]
fn first() {
    let input = rows(&[&[0., 0.], &[0., 1.], &[1., 0.], &[1., 1.]]); // FIRST
    let feedback = rows(&[&[0.], &[0.], &[1.], &[1.]]);
    let mut nn = new(2, 4, 0.1);
    train(&mut nn, 500, &input, &feedback);
    test(nn, &input, &feedback, "first".to_string());
}

#[test]
fn and_exact_truth_table() {
    // the four-row logical-AND table, a thousand stochastic steps, and a
    // per-example loss below 0.2 on every row
    let input = rows(&[&[0., 0.], &[0., 1.], &[1., 0.], &[1., 1.]]);
    let feedback = rows(&[&[0.], &[0.], &[0.], &[1.]]);
    let mut nn = new(2, 4, 0.1);
    train(&mut nn, 1_000, &input, &feedback);
    for i in 0..input.len() {
        let diff = nn.loss_from_input(input[i].clone(), feedback[i].clone()).unwrap();
        assert!(diff >= 0);
        assert!(diff < fx(0.2), "row {} loss {}", i, diff);
    }
}
