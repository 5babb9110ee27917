use rlnet::optimizers::{AdaGrad, Optimizer};

const ONE: i64 = 4294967296;

fn fx(x: f64) -> i64 {
    (x * ONE as f64) as i64
}

fn to_f(v: i64) -> f64 {
    v as f64 / ONE as f64
}

#[test]
fn adagrad_first_step_exact() {
    let mut a = AdaGrad::new();
    let step = a.optimize(&vec![fx(1.0)]);
    // accumulator = 1.0, step = 1 / sqrt(1) = 1
    assert_eq!(a.acc, vec![ONE]);
    assert_eq!(step, vec![ONE]);
}

#[test]
fn adagrad_accumulator_strictly_grows() {
    let mut a = AdaGrad::new();
    let mut prev: i64 = 0;
    for _ in 0..6 {
        a.optimize(&vec![fx(1.0), fx(-0.5)]);
        assert!(a.acc[0] > prev, "accumulator must strictly grow on nonzero gradients");
        assert!(a.acc[1] >= 0);
        prev = a.acc[0];
    }
    // second entry grows too, by 0.25 per step
    assert!((to_f(a.acc[1]) - 1.5).abs() < 1e-6);
}

#[test]
fn adagrad_second_step_scales_by_root_two() {
    let mut a = AdaGrad::new();
    a.optimize(&vec![fx(1.0)]);
    let step = a.optimize(&vec![fx(1.0)]);
    assert!((to_f(step[0]) - 1.0 / 2.0f64.sqrt()).abs() < 1e-6);
}

#[test]
fn adagrad_set_input_shape_zeroes() {
    let mut a = AdaGrad::new();
    a.optimize(&vec![fx(2.0), fx(2.0)]);
    a.set_input_shape(&vec![2, 3]);
    assert_eq!(a.acc, vec![0; 6]);
    assert_eq!(a.get_type(), "AdaGrad");
}

#[test]
fn sgd_returns_gradient_unchanged() {
    let mut o = Optimizer::Sgd;
    let g = vec![fx(0.25), fx(-1.5), 0];
    assert_eq!(o.optimize(&g), g);
}

#[test]
fn momentum_first_step_is_gradient() {
    let mut o = Optimizer::Momentum { vel: Vec::new() };
    let step = o.optimize(&vec![fx(0.5)]);
    assert_eq!(step, vec![fx(0.5)]);
    // second step: v = 0.9 * 0.5 + 0.5 = 0.95
    let step2 = o.optimize(&vec![fx(0.5)]);
    assert!((to_f(step2[0]) - 0.95).abs() < 1e-6);
}

#[test]
fn rmsprop_first_step_reference() {
    let mut o = Optimizer::RmsProp { acc: Vec::new() };
    let step = o.optimize(&vec![fx(1.0)]);
    // acc = 0.1, step = 1 / sqrt(0.1)
    assert!((to_f(step[0]) - 1.0 / 0.1f64.sqrt()).abs() < 1e-4);
}

#[test]
fn adam_first_step_near_unit() {
    let mut o = Optimizer::Adam { m: Vec::new(), v: Vec::new(), bp1: ONE, bp2: ONE };
    let step = o.optimize(&vec![fx(1.0)]);
    // bias correction makes the first step almost exactly the unit
    assert!((to_f(step[0]) - 1.0).abs() < 1e-4, "got {}", to_f(step[0]));
    let down = o.optimize(&vec![fx(-1.0)]);
    assert!(to_f(down[0]) < 0.0);
}
