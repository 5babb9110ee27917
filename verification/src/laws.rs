use vstd::prelude::*;
use crate::fx::{
    fx_ok, fx_mul_s, fx_add_s, fx_sub_s, sigmoid_s, sigmoid_pos_s, exp_neg_s, exp_unit_s,
    lemma_fx_mul_one, lemma_fx_mul_sign, SCALE, FX_HALF, FX_MAX,
};
use crate::vecops::all_fx_ok;
use crate::layers::Layer;
use crate::nn::{net_fwd_pure, net_fwd_post, lemma_net_params_eq};
use crate::optimizers::{adagrad_acc_s, rms_acc_s, adam_v_s, FX_DECAY, FX_DECAY2};

verus! {

/// The general properties the library warrants, stated over the same spec
/// functions its contracts use.

/// Backward after forward round-trips the shape: for any layer variant, the
/// downstream gradient a backward pass returns has the same length as the
/// input the preceding forward pass consumed.
pub proof fn lemma_backward_shape_roundtrip(
    l0: Layer,
    l1: Layer,
    l2: Layer,
    x: Seq<i64>,
    g: Seq<i64>,
    r: Seq<i64>,
)
    requires
        l0.wf(),
        l0.in_ok(x.len()),
        Layer::fwd_post(l0, l1, x),
        g.len() == l0.out_len(x.len()),
        Layer::bwd_post(l1, l2, g, r),
    ensures
        r.len() == x.len(),
{
}

/// The sigmoid's value always lies strictly inside (0, 1), and the
/// argument zero maps to exactly one half.
pub proof fn lemma_sigmoid_range(x: int)
    ensures
        1 <= sigmoid_s(x) <= SCALE - 1,
        x == 0 ==> sigmoid_s(x) == FX_HALF as int,
{
    if x == 0 {
        assert(0int / 16 == 0);
        assert(fx_mul_s(0, 0) == 0) by {
            assert(crate::fx::iabs(0) == 0);
            assert(0int * 0int == 0) by (nonlinear_arith);
            assert(0int / (SCALE as int) == 0) by (nonlinear_arith);
        }
        assert(exp_unit_s(0) == SCALE as int) by {
            assert(fx_mul_s(0, 0) == 0);
            assert(0int / 2 == 0 && 0int / 6 == 0 && 0int / 24 == 0);
            assert(fx_sub_s(SCALE as int, 0) == SCALE as int);
            assert(fx_add_s(SCALE as int, 0) == SCALE as int);
            lemma_fx_mul_one(SCALE as int);
        }
        assert(exp_neg_s(0) == SCALE as int) by {
            assert(0int / (SCALE as int) == 0) by (nonlinear_arith);
            assert(0int % (SCALE as int) == 0) by (nonlinear_arith);
        }
        assert(sigmoid_pos_s(0) == FX_HALF as int) by {
            assert(fx_add_s(SCALE as int, SCALE as int) == 2 * SCALE as int);
            assert(crate::fx::fx_div_s(SCALE as int, 2 * SCALE as int) == FX_HALF as int) by {
                assert(crate::fx::iabs(SCALE as int) == SCALE as int);
                assert(crate::fx::iabs(2 * SCALE as int) == 2 * SCALE as int);
                assert((SCALE as int) * (SCALE as int) / (2 * SCALE as int) == FX_HALF as int)
                    by (nonlinear_arith);
            }
        }
    }
}

/// AdaGrad's accumulator never decreases: each step adds the square of the
/// gradient entry, which cannot be negative; it grows strictly whenever
/// that square is positive and the accumulator is not yet saturated.
pub proof fn lemma_adagrad_accumulator_monotone(a: int, g: int)
    requires
        fx_ok(a),
    ensures
        adagrad_acc_s(a, g) >= a,
        0 < fx_mul_s(g, g) && a < FX_MAX as int ==> adagrad_acc_s(a, g) > a,
{
    lemma_fx_mul_sign(g, g);
}

/// The decayed squared-gradient accumulators of RMSProp and Adam stay
/// non-negative and never fall below their decayed previous value; unlike
/// AdaGrad's sum they may decay toward zero when the gradient vanishes.
pub proof fn lemma_decayed_accumulator_floor(a: int, g: int)
    requires
        fx_ok(a),
        a >= 0,
    ensures
        rms_acc_s(a, g) >= fx_mul_s(FX_DECAY as int, a),
        rms_acc_s(a, g) >= 0,
        adam_v_s(a, g) >= fx_mul_s(FX_DECAY2 as int, a),
        adam_v_s(a, g) >= 0,
{
    lemma_fx_mul_sign(g, g);
    lemma_fx_mul_sign(crate::optimizers::FX_ONE_MINUS_DECAY as int, fx_mul_s(g, g));
    lemma_fx_mul_sign(crate::optimizers::FX_ONE_MINUS_DECAY2 as int, fx_mul_s(g, g));
    lemma_fx_mul_sign(FX_DECAY as int, a);
    lemma_fx_mul_sign(FX_DECAY2 as int, a);
}

/// With exactly one legal action, any legal choice is that action: the
/// agent's chosen move (always legal by get_move's contract) is forced,
/// whatever the exploration rate or the network's prediction.
pub proof fn lemma_single_legal_forced(mask: Seq<bool>, j: int, r: int)
    requires
        0 <= j < mask.len(),
        mask[j],
        forall|k: int| 0 <= k < mask.len() && k != j ==> !mask[k],
        0 <= r < mask.len(),
        mask[r],
    ensures
        r == j,
{
}

/// Prediction is idempotent: a forward sweep moves no parameter, so a
/// second prediction on the same input returns the same output.
pub proof fn lemma_predict_idempotent(ls0: Seq<Layer>, ls1: Seq<Layer>, x: Seq<i64>)
    requires
        net_fwd_post(ls0, ls1, x),
    ensures
        net_fwd_pure(ls1, x, ls1.len()) == net_fwd_pure(ls0, x, ls0.len()),
{
    assert forall|t: int| 0 <= t < ls0.len() implies Layer::params_eq(
        #[trigger] ls0[t],
        ls1[t],
    ) by {
        assert(Layer::fwd_post(ls0[t], ls1[t], net_fwd_pure(ls0, x, t as nat)));
    }
    lemma_net_params_eq(ls0, ls1, x, ls0.len());
}

} // verus!