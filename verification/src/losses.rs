use vstd::prelude::*;
use crate::fx::{
    fx_ok, fx_add_s, fx_sub_s, fx_mul_s, fx_div_s, fx_sdivn_s, fx_ln_s, exp_neg_s, fx_add, fx_sub,
    fx_mul, fx_div, fx_sdivn, fx_ln, exp_neg, lemma_fx_mul_sign, lemma_fx_mul_le_left, SCALE,
};
use crate::vecops::{all_fx_ok, vsub_s, vsub};

verus! {

/// Loss functions score a prediction against a target and give the gradient
/// of that score with respect to the prediction. The binary cross-entropy
/// also offers a fused from-logits pair that folds the final sigmoid's
/// derivative into the loss derivative for numerical stability.

/// All entries lie in the closed unit interval.
pub open spec fn all_unit(s: Seq<i64>) -> bool {
    forall|i: int| 0 <= i < s.len() ==> 0 <= #[trigger] s[i] <= SCALE
}

/// A prediction entry pulled strictly inside (0,1) before a division or a
/// logarithm may see it.
pub open spec fn clamp_unit_s(o: int) -> int {
    if o < 1 {
        1
    } else if o > SCALE as int - 1 {
        SCALE as int - 1
    } else {
        o
    }
}

pub fn clamp_unit(o: i64) -> (r: i64)
    requires
        fx_ok(o as int),
    ensures
        r as int == clamp_unit_s(o as int),
        1 <= r <= SCALE - 1,
{
    if o < 1 {
        1
    } else if o > SCALE - 1 {
        SCALE - 1
    } else {
        o
    }
}

/// The cross-entropy gradient for one entry: (o - t) / (o (1 - o)).
pub open spec fn bce_deriv_e(o: int, t: int) -> int {
    fx_div_s(
        fx_sub_s(o, t),
        fx_mul_s(clamp_unit_s(o), fx_sub_s(SCALE as int, clamp_unit_s(o))),
    )
}

pub open spec fn bce_deriv_vec_s(o: Seq<i64>, t: Seq<i64>) -> Seq<i64> {
    Seq::new(o.len(), |i: int| bce_deriv_e(o[i] as int, t[i] as int) as i64)
}

/// One squared-error score: half the squared difference.
pub open spec fn mse_score_e(o: int, t: int) -> int {
    fx_sdivn_s(fx_mul_s(fx_sub_s(o, t), fx_sub_s(o, t)), 2)
}

/// One cross-entropy score: -(t ln o + (1 - t) ln(1 - o)), the prediction
/// pulled strictly inside (0, 1) before the logarithms see it.
pub open spec fn bce_score_e(o: int, t: int) -> int {
    let c = clamp_unit_s(o);
    fx_sub_s(
        0,
        fx_add_s(
            fx_mul_s(t, fx_ln_s(c)),
            fx_mul_s(fx_sub_s(SCALE as int, t), fx_ln_s(SCALE as int - c)),
        ),
    )
}

/// The per-entry score of a prediction against a target, per variant; the
/// categorical stand-in scores with the prediction itself.
pub open spec fn loss_score_s(l: Loss, o: Seq<i64>, t: Seq<i64>) -> Seq<i64> {
    match l {
        Loss::Mse => Seq::new(o.len(), |i: int| mse_score_e(o[i] as int, t[i] as int) as i64),
        Loss::Bce => Seq::new(o.len(), |i: int| bce_score_e(o[i] as int, t[i] as int) as i64),
        Loss::Cce => o,
    }
}

/// One numerically stable fused score at a pre-activation value:
/// max(z, 0) - z t + ln(1 + e^-|z|).
pub open spec fn bce_logit_score_e(z: int, t: int) -> int {
    let m = if z > 0 {
        z
    } else {
        0
    };
    let az = if z < 0 {
        -z
    } else {
        z
    };
    fx_add_s(
        fx_sub_s(m, fx_mul_s(z, t)),
        fx_ln_s(fx_add_s(SCALE as int, exp_neg_s(az))),
    )
}

/// The polymorphic loss, selected by name at network assembly.
pub enum Loss {
    /// Half the squared difference; its gradient is the plain difference.
    Mse,
    /// The binary cross-entropy of a sigmoid output against a 0/1 target.
    Bce,
    /// The categorical stand-in, which passes values through unchanged.
    Cce,
}

/// The gradient of the loss with respect to the prediction.
pub open spec fn loss_deriv_s(l: Loss, o: Seq<i64>, t: Seq<i64>) -> Seq<i64> {
    match l {
        Loss::Mse => vsub_s(o, t),
        Loss::Bce => bce_deriv_vec_s(o, t),
        Loss::Cce => t,
    }
}

impl Loss {
    /// The gradient of the loss at a prediction, entry by entry.
    pub fn backward(&self, o: &Vec<i64>, t: &Vec<i64>) -> (r: Vec<i64>)
        requires
            o@.len() == t@.len(),
            all_fx_ok(o@),
            all_fx_ok(t@),
        ensures
            r@ == loss_deriv_s(*self, o@, t@),
            r@.len() == o@.len(),
            all_fx_ok(r@),
    {
        match self {
            Loss::Mse => vsub(o, t),
            Loss::Bce => {
                let n: usize = o.len();
                let mut r: Vec<i64> = Vec::new();
                let mut i: usize = 0;
                while i < n
                    invariant
                        i <= n,
                        n == o@.len() == t@.len(),
                        all_fx_ok(o@),
                        all_fx_ok(t@),
                        r@.len() == i,
                        forall|j: int| 0 <= j < i ==> r@[j] == bce_deriv_e(
                            o@[j] as int,
                            t@[j] as int,
                        ) as i64,
                        all_fx_ok(r@),
                    decreases n - i,
                {
                    let c: i64 = clamp_unit(o[i]);
                    let den: i64 = fx_mul(c, fx_sub(SCALE, c));
                    r.push(fx_div(fx_sub(o[i], t[i]), den));
                    i = i + 1;
                }
                proof {
                    assert(r@ =~= bce_deriv_vec_s(o@, t@));
                }
                r
            },
            Loss::Cce => {
                let n: usize = t.len();
                let mut r: Vec<i64> = Vec::new();
                let mut i: usize = 0;
                while i < n
                    invariant
                        i <= n,
                        n == t@.len(),
                        all_fx_ok(t@),
                        r@.len() == i,
                        forall|j: int| 0 <= j < i ==> r@[j] == t@[j],
                        all_fx_ok(r@),
                    decreases n - i,
                {
                    r.push(t[i]);
                    i = i + 1;
                }
                proof {
                    assert(r@ =~= t@);
                }
                r
            },
        }
    }

    /// The per-entry loss score, exactly `loss_score_s`. Squared error and
    /// cross-entropy scores are non-negative (the latter for unit-interval
    /// targets); the categorical stand-in returns the prediction unchanged,
    /// as the variant's definition has it.
    pub fn forward(&self, o: &Vec<i64>, t: &Vec<i64>) -> (r: Vec<i64>)
        requires
            o@.len() == t@.len(),
            all_fx_ok(o@),
            all_fx_ok(t@),
        ensures
            r@ == loss_score_s(*self, o@, t@),
            r@.len() == o@.len(),
            all_fx_ok(r@),
            *self is Mse ==> forall|i: int| 0 <= i < r@.len() ==> #[trigger] r@[i] >= 0,
            *self is Bce && all_unit(t@) ==> forall|i: int| 0 <= i < r@.len() ==> #[trigger] r@[i]
                >= 0,
            *self is Cce ==> r@ == o@,
    {
        match self {
            Loss::Mse => {
                let n: usize = o.len();
                let mut r: Vec<i64> = Vec::new();
                let mut i: usize = 0;
                while i < n
                    invariant
                        i <= n,
                        n == o@.len() == t@.len(),
                        all_fx_ok(o@),
                        all_fx_ok(t@),
                        r@.len() == i,
                        forall|j: int| 0 <= j < i ==> r@[j] == mse_score_e(
                            o@[j] as int,
                            t@[j] as int,
                        ) as i64,
                        forall|j: int| 0 <= j < i ==> #[trigger] r@[j] >= 0,
                        all_fx_ok(r@),
                    decreases n - i,
                {
                    let d: i64 = fx_sub(o[i], t[i]);
                    proof {
                        lemma_fx_mul_sign(
                            fx_sub_s(o@[i as int] as int, t@[i as int] as int),
                            fx_sub_s(o@[i as int] as int, t@[i as int] as int),
                        );
                    }
                    let sq: i64 = fx_mul(d, d);
                    r.push(fx_sdivn(sq, 2));
                    i = i + 1;
                }
                proof {
                    assert(r@ =~= loss_score_s(*self, o@, t@));
                }
                r
            },
            Loss::Bce => {
                let n: usize = o.len();
                let mut r: Vec<i64> = Vec::new();
                let mut i: usize = 0;
                while i < n
                    invariant
                        i <= n,
                        n == o@.len() == t@.len(),
                        all_fx_ok(o@),
                        all_fx_ok(t@),
                        r@.len() == i,
                        forall|j: int| 0 <= j < i ==> r@[j] == bce_score_e(
                            o@[j] as int,
                            t@[j] as int,
                        ) as i64,
                        forall|j: int| 0 <= j < i && all_unit(t@) ==> #[trigger] r@[j] >= 0,
                        all_fx_ok(r@),
                    decreases n - i,
                {
                    let c: i64 = clamp_unit(o[i]);
                    let lo: i64 = fx_ln(c);
                    let l1o: i64 = fx_ln(SCALE - c);
                    let a: i64 = fx_mul(t[i], lo);
                    let b: i64 = fx_mul(fx_sub(SCALE, t[i]), l1o);
                    proof {
                        if all_unit(t@) {
                            lemma_fx_mul_sign(t@[i as int] as int, lo as int);
                            lemma_fx_mul_sign(
                                fx_sub_s(SCALE as int, t@[i as int] as int),
                                l1o as int,
                            );
                        }
                    }
                    r.push(fx_sub(0, fx_add(a, b)));
                    i = i + 1;
                }
                proof {
                    assert(r@ =~= loss_score_s(*self, o@, t@));
                }
                r
            },
            Loss::Cce => {
                let n: usize = o.len();
                let mut r: Vec<i64> = Vec::new();
                let mut i: usize = 0;
                while i < n
                    invariant
                        i <= n,
                        n == o@.len(),
                        all_fx_ok(o@),
                        r@.len() == i,
                        forall|j: int| 0 <= j < i ==> r@[j] == o@[j],
                        all_fx_ok(r@),
                    decreases n - i,
                {
                    r.push(o[i]);
                    i = i + 1;
                }
                proof {
                    assert(r@ =~= o@);
                }
                r
            },
        }
    }

    /// The fused gradient at pre-activation values: for the cross-entropy
    /// behind a sigmoid it is exactly (sigmoid(z) - t), which the caller
    /// evaluates as (output - target) on the cached activation.
    pub fn deriv_from_logits_out(&self, out: &Vec<i64>, t: &Vec<i64>) -> (r: Vec<i64>)
        requires
            out@.len() == t@.len(),
            all_fx_ok(out@),
            all_fx_ok(t@),
        ensures
            r@ == vsub_s(out@, t@),
            r@.len() == out@.len(),
            all_fx_ok(r@),
    {
        vsub(out, t)
    }

    /// The numerically stable fused score at pre-activation values:
    /// exactly max(z,0) - z t + ln(1 + e^-|z|) per entry, non-negative for
    /// unit targets.
    pub fn loss_from_logits(&self, z: &Vec<i64>, t: &Vec<i64>) -> (r: Vec<i64>)
        requires
            z@.len() == t@.len(),
            all_fx_ok(z@),
            all_fx_ok(t@),
        ensures
            r@ == Seq::new(z@.len(), |i: int| bce_logit_score_e(z@[i] as int, t@[i] as int) as i64),
            r@.len() == z@.len(),
            all_fx_ok(r@),
            all_unit(t@) ==> forall|i: int| 0 <= i < r@.len() ==> #[trigger] r@[i] >= 0,
    {
        let n: usize = z.len();
        let mut r: Vec<i64> = Vec::new();
        let mut i: usize = 0;
        while i < n
            invariant
                i <= n,
                n == z@.len() == t@.len(),
                all_fx_ok(z@),
                all_fx_ok(t@),
                r@.len() == i,
                forall|j: int| 0 <= j < i ==> r@[j] == bce_logit_score_e(
                    z@[j] as int,
                    t@[j] as int,
                ) as i64,
                forall|j: int| 0 <= j < i && all_unit(t@) ==> #[trigger] r@[j] >= 0,
                all_fx_ok(r@),
            decreases n - i,
        {
            let zi: i64 = z[i];
            let m: i64 = if zi > 0 {
                zi
            } else {
                0
            };
            let zt: i64 = fx_mul(zi, t[i]);
            let az: i64 = if zi < 0 {
                -zi
            } else {
                zi
            };
            let e: i64 = exp_neg(az);
            let ln1pe: i64 = fx_ln(fx_add(SCALE, e));
            proof {
                if all_unit(t@) {
                    if zi > 0 {
                        lemma_fx_mul_le_left(zi as int, t@[i as int] as int);
                    } else {
                        lemma_fx_mul_sign(zi as int, t@[i as int] as int);
                    }
                }
            }
            r.push(fx_add(fx_sub(m, zt), ln1pe));
            i = i + 1;
        }
        proof {
            assert(r@ =~= Seq::new(
                z@.len(),
                |i: int| bce_logit_score_e(z@[i] as int, t@[i] as int) as i64,
            ));
        }
        r
    }
}

/// The categorical cross-entropy unit, kept with the interface of the other
/// losses. It is a pass-through stand-in: each pass hands one of its
/// operands back unchanged — the score pass the prediction, the gradient
/// pass the target — and computes no categorical formula; networks that
/// need a scored loss select the squared-error or cross-entropy variants.
pub struct CategoricalCrossEntropyError {}

impl CategoricalCrossEntropyError {
    pub fn new() -> (r: Self)
        ensures
            true,
    {
        CategoricalCrossEntropyError {  }
    }

    pub fn get_type(&self) -> (r: String)
        ensures
            r@ == "Binary Crossentropy Error"@,
    {
        String::from_str("Binary Crossentropy Error")
    }

    /// The score pass: returns the prediction unchanged.
    pub fn forward(&mut self, input: Vec<i64>, _target: Vec<i64>) -> (r: Vec<i64>)
        ensures
            r == input,
            *final(self) == *old(self),
    {
        input
    }

    /// The gradient pass: returns the target unchanged.
    pub fn backward(&mut self, _input: Vec<i64>, target: Vec<i64>) -> (r: Vec<i64>)
        ensures
            r == target,
            *final(self) == *old(self),
    {
        target
    }

    /// The fused score pass: returns the logits unchanged.
    pub fn loss_from_logits(&mut self, input: Vec<i64>, _target: Vec<i64>) -> (r: Vec<i64>)
        ensures
            r == input,
            *final(self) == *old(self),
    {
        input
    }

    /// The fused gradient pass: returns the target unchanged.
    pub fn deriv_from_logits(&mut self, _input: Vec<i64>, target: Vec<i64>) -> (r: Vec<i64>)
        ensures
            r == target,
            *final(self) == *old(self),
    {
        target
    }
}

} // verus!