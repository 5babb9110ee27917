use rlnet::fx::{
    fx_add, fx_sub, fx_mul, fx_div, fx_sqrt, fx_ln, exp_neg, sigmoid, SCALE, FX_HALF, FX_MAX,
};

const ONE: i64 = 4294967296;

fn fx(x: f64) -> i64 {
    (x * ONE as f64) as i64
}

fn to_f(v: i64) -> f64 {
    v as f64 / ONE as f64
}

#[test]
fn mul_exact_values() {
    assert_eq!(fx_mul(fx(2.0), fx(3.0)), fx(6.0));
    assert_eq!(fx_mul(fx(-2.0), fx(3.0)), fx(-6.0));
    assert_eq!(fx_mul(fx(0.5), fx(0.5)), fx(0.25));
    assert_eq!(fx_mul(0, fx(123.0)), 0);
    assert_eq!(fx_mul(SCALE, fx(7.25)), fx(7.25));
}

#[test]
fn add_sub_saturate() {
    assert_eq!(fx_add(fx(1.5), fx(2.5)), fx(4.0));
    assert_eq!(fx_add(FX_MAX, FX_MAX), FX_MAX);
    assert_eq!(fx_sub(-FX_MAX, FX_MAX), -FX_MAX);
    assert_eq!(fx_sub(fx(1.0), fx(3.0)), fx(-2.0));
}

#[test]
fn div_exact_and_zero_divisor() {
    assert_eq!(fx_div(fx(6.0), fx(3.0)), fx(2.0));
    assert_eq!(fx_div(fx(-6.0), fx(3.0)), fx(-2.0));
    // a zero divisor saturates; zero over zero is zero
    assert_eq!(fx_div(fx(1.0), 0), FX_MAX);
    assert_eq!(fx_div(fx(-1.0), 0), -FX_MAX);
    assert_eq!(fx_div(0, 0), 0);
}

#[test]
fn sqrt_exact_squares() {
    assert_eq!(fx_sqrt(fx(4.0)), fx(2.0));
    assert_eq!(fx_sqrt(fx(1.0)), fx(1.0));
    assert_eq!(fx_sqrt(0), 0);
    let r = fx_sqrt(fx(2.0));
    assert!((to_f(r) - 1.4142135623).abs() < 1e-6);
}

#[test]
fn exp_neg_matches_reference() {
    assert_eq!(exp_neg(0), SCALE);
    for &x in &[0.25f64, 0.5, 1.0, 2.0, 3.5, 7.0, 12.0] {
        let got = to_f(exp_neg(fx(x)));
        let want = (-x).exp();
        assert!((got - want).abs() < 1e-5, "exp(-{}) got {} want {}", x, got, want);
    }
    assert_eq!(exp_neg(fx(40.0)), 0);
}

#[test]
fn sigmoid_zero_is_exactly_half() {
    assert_eq!(sigmoid(0), FX_HALF);
}

#[test]
fn sigmoid_strictly_inside_unit_interval() {
    for &x in &[-1e6f64, -50.0, -20.0, -1.0, -1e-9, 0.0, 1e-9, 1.0, 20.0, 50.0, 1e6] {
        let s = sigmoid(fx(x));
        assert!(s >= 1 && s <= SCALE - 1, "sigmoid({}) = {} out of (0,1)", x, s);
    }
    let big = sigmoid(FX_MAX);
    assert!(big >= 1 && big <= SCALE - 1);
    let small = sigmoid(-FX_MAX);
    assert!(small >= 1 && small <= SCALE - 1);
}

#[test]
fn sigmoid_matches_reference() {
    for &x in &[-6.0f64, -2.5, -1.0, -0.25, 0.5, 1.0, 3.0, 6.0] {
        let got = to_f(sigmoid(fx(x)));
        let want = 1.0 / (1.0 + (-x).exp());
        assert!((got - want).abs() < 1e-5, "sigmoid({}) got {} want {}", x, got, want);
    }
}

#[test]
fn ln_matches_reference() {
    assert_eq!(fx_ln(SCALE), 0);
    for &x in &[0.001f64, 0.01, 0.1, 0.5, 0.75, 1.0, 1.5, 2.0] {
        let got = to_f(fx_ln(fx(x)));
        let want = x.ln();
        assert!((got - want).abs() < 1e-4, "ln({}) got {} want {}", x, got, want);
    }
}
