use rlnet::losses::{Loss, CategoricalCrossEntropyError};
use rlnet::layers::SigmoidLayer;
use rlnet::fx::{fx_sub, fx_mul, sigmoid, SCALE};

const ONE: i64 = 4294967296;

fn fx(x: f64) -> i64 {
    (x * ONE as f64) as i64
}

fn to_f(v: i64) -> f64 {
    v as f64 / ONE as f64
}

#[test]
fn cce_passes_operands_through() {
    let mut c = CategoricalCrossEntropyError::new();
    let input = vec![fx(0.3), fx(0.7)];
    let target = vec![fx(1.0), fx(0.0)];
    assert_eq!(c.forward(input.clone(), target.clone()), input);
    assert_eq!(c.backward(input.clone(), target.clone()), target);
    assert_eq!(c.loss_from_logits(input.clone(), target.clone()), input);
    assert_eq!(c.deriv_from_logits(input.clone(), target.clone()), target);
    assert_eq!(c.get_type(), "Binary Crossentropy Error");
}

#[test]
fn mse_forward_and_backward_reference() {
    let l = Loss::Mse;
    let o = vec![fx(0.8)];
    let t = vec![fx(0.5)];
    let scores = l.forward(&o, &t);
    assert!((to_f(scores[0]) - 0.5 * 0.3 * 0.3).abs() < 1e-6);
    let d = l.backward(&o, &t);
    assert!((to_f(d[0]) - 0.3).abs() < 1e-6);
}

#[test]
fn bce_backward_reference() {
    let l = Loss::Bce;
    let o = vec![fx(0.8)];
    let t = vec![fx(1.0)];
    let d = l.backward(&o, &t);
    let want = (0.8f64 - 1.0) / (0.8 * 0.2);
    assert!((to_f(d[0]) - want).abs() < 1e-3, "got {} want {}", to_f(d[0]), want);
}

#[test]
fn bce_forward_nonnegative_and_reference() {
    let l = Loss::Bce;
    let o = vec![fx(0.9), fx(0.2)];
    let t = vec![fx(1.0), fx(0.0)];
    let scores = l.forward(&o, &t);
    assert!(scores[0] >= 0 && scores[1] >= 0);
    assert!((to_f(scores[0]) - (-(0.9f64.ln()))).abs() < 1e-3);
    assert!((to_f(scores[1]) - (-(0.8f64.ln()))).abs() < 1e-3);
}

#[test]
fn fused_logit_loss_nonnegative() {
    let l = Loss::Bce;
    let z = vec![fx(25.0), fx(-25.0), fx(0.5)];
    let t = vec![fx(0.0), fx(1.0), fx(1.0)];
    let scores = l.loss_from_logits(&z, &t);
    for s in scores {
        assert!(s >= 0);
    }
}

#[test]
fn fused_path_beats_unfused_at_extreme_logits() {
    // an extreme pre-activation saturates the sigmoid; the fused gradient
    // (output - target) stays accurate while the unfused composition
    // divides by the vanishing sigmoid derivative and collapses
    let loss = Loss::Bce;
    let z = fx(25.0);
    let t = fx(0.0);
    let mut sl = SigmoidLayer::new();
    let out = sl.forward(&vec![z]);
    let fused = loss.deriv_from_logits_out(&out, &vec![t]);
    let plain = loss.backward(&out, &vec![t]);
    let unfused = sl.backward(&plain);
    let truegrad = 1.0 / (1.0 + (-25.0f64).exp()); // d loss / d z = sigmoid(z) - 0
    let err_fused = (to_f(fused[0]) - truegrad).abs();
    let err_unfused = (to_f(unfused[0]) - truegrad).abs();
    assert!(
        err_fused < err_unfused,
        "fused {} should beat unfused {}",
        err_fused,
        err_unfused
    );
    assert!(err_fused < 1e-3);
}

#[test]
fn fused_gradient_is_output_minus_target() {
    let loss = Loss::Bce;
    let z = fx(0.7);
    let out = sigmoid(z);
    let fused = loss.deriv_from_logits_out(&vec![out], &vec![fx(1.0)]);
    assert_eq!(fused[0], fx_sub(out, fx(1.0)));
    // sanity against the analytic value sigmoid(0.7) - 1
    let want = 1.0 / (1.0 + (-0.7f64).exp()) - 1.0;
    assert!((to_f(fused[0]) - want).abs() < 1e-5);
    // the unfused composition agrees at a moderate logit
    let mut sl = SigmoidLayer::new();
    let o = sl.forward(&vec![z]);
    let plain = loss.backward(&o, &vec![fx(1.0)]);
    let unf = sl.backward(&plain);
    assert!((to_f(unf[0]) - want).abs() < 1e-2);
    let _ = fx_mul(out, SCALE);
}
