use vstd::prelude::*;
use crate::fx::{
    fx_ok, fx_add_s, fx_sub_s, fx_mul_s, fx_div_s, fx_sqrt_s, fx_add, fx_sub, fx_mul, fx_div,
    fx_sqrt, lemma_fx_mul_sign, SCALE,
};
use crate::vecops::{all_fx_ok, zeros};

verus! {

/// Optimizers turn a raw parameter gradient into an adjusted update step.
/// Each instance owns per-parameter running statistics sized to the gradient
/// it serves; the first call initializes a zero accumulator of the first
/// shape it sees, and a changed shape reinitializes it.

/// Decay rate 0.9, shared by momentum, RMSProp and Adam's first moment.
pub const FX_DECAY: i64 = 3865470566;

/// One minus the 0.9 decay.
pub const FX_ONE_MINUS_DECAY: i64 = 429496730;

/// Adam's second-moment decay 0.999.
pub const FX_DECAY2: i64 = 4290672329;

/// One minus the 0.999 decay.
pub const FX_ONE_MINUS_DECAY2: i64 = 4294967;

/// Adam's divisor guard of one hundred-millionth.
pub const FX_ADAM_EPS: i64 = 43;

/// All entries of an accumulator are non-negative well-formed values.
pub open spec fn acc_ok(s: Seq<i64>) -> bool {
    &&& all_fx_ok(s)
    &&& forall|i: int| 0 <= i < s.len() ==> #[trigger] s[i] >= 0
}

/// The running state an optimizer holds, padded with zeros when it has not
/// yet seen a gradient of this length.
pub open spec fn eff(s: Seq<i64>, n: nat) -> Seq<i64> {
    if s.len() == n {
        s
    } else {
        Seq::new(n as nat, |i: int| 0i64)
    }
}

/// AdaGrad's accumulator update: the running sum of squared gradients.
pub open spec fn adagrad_acc_s(a: int, g: int) -> int {
    fx_add_s(a, fx_mul_s(g, g))
}

/// AdaGrad's adjusted step: the gradient divided by the root of the sum of
/// its squares so far. There is no divisor guard: a zero accumulator
/// saturates the quotient, which the design knowingly leaves to the caller.
pub open spec fn adagrad_adj_s(a2: int, g: int) -> int {
    fx_div_s(g, fx_sqrt_s(a2))
}

/// The momentum velocity update.
pub open spec fn momentum_vel_s(v: int, g: int) -> int {
    fx_add_s(fx_mul_s(FX_DECAY as int, v), g)
}

/// RMSProp's decayed squared-gradient accumulator.
pub open spec fn rms_acc_s(a: int, g: int) -> int {
    fx_add_s(fx_mul_s(FX_DECAY as int, a), fx_mul_s(FX_ONE_MINUS_DECAY as int, fx_mul_s(g, g)))
}

/// Adam's first-moment update.
pub open spec fn adam_m_s(m: int, g: int) -> int {
    fx_add_s(fx_mul_s(FX_DECAY as int, m), fx_mul_s(FX_ONE_MINUS_DECAY as int, g))
}

/// Adam's second-moment update.
pub open spec fn adam_v_s(v: int, g: int) -> int {
    fx_add_s(fx_mul_s(FX_DECAY2 as int, v), fx_mul_s(FX_ONE_MINUS_DECAY2 as int, fx_mul_s(g, g)))
}

/// Adam's bias-corrected adjusted step.
pub open spec fn adam_adj_s(m2: int, v2: int, bp1: int, bp2: int, g: int) -> int {
    let mhat = fx_div_s(m2, fx_sub_s(SCALE as int, bp1));
    let vhat = fx_div_s(v2, fx_sub_s(SCALE as int, bp2));
    fx_div_s(mhat, fx_add_s(fx_sqrt_s(vhat), FX_ADAM_EPS as int))
}

/// An optimizer for more efficient weight updates: it divides each gradient
/// entry by the root of the running sum of that entry's squares.
pub struct AdaGrad {
    pub acc: Vec<i64>,
}

impl AdaGrad {
    pub open spec fn acc_view(&self) -> Seq<i64> {
        self.acc@
    }

    pub open spec fn wf(&self) -> bool {
        acc_ok(self.acc@)
    }

    /// No parameters available.
    pub fn new() -> (r: Self)
        ensures
            r.acc_view().len() == 0,
            r.wf(),
    {
        AdaGrad { acc: Vec::new() }
    }

    pub fn get_type(&self) -> (r: String)
        ensures
            r@ == "AdaGrad"@,
    {
        String::from_str("AdaGrad")
    }

    /// Reinitializes the accumulator to zeros with the given shape.
    pub fn set_input_shape(&mut self, shape: &Vec<usize>)
        ensures
            crate::tensor::dims_ok(shape@) && crate::tensor::prod(shape@) <= usize::MAX
                ==> final(self).acc_view() == Seq::new(
                crate::tensor::prod(shape@),
                |i: int| 0i64,
            ),
            final(self).wf(),
    {
        match crate::tensor::prod_checked(shape) {
            Some(p) => {
                self.set_input_shape_len(p);
            },
            None => {
                self.set_input_shape_len(0);
            },
        }
    }

    /// Reinitializes the accumulator to zeros of the given total size.
    pub fn set_input_shape_len(&mut self, n: usize)
        ensures
            final(self).acc_view() == Seq::new(n as nat, |i: int| 0i64),
            final(self).wf(),
    {
        self.acc = zeros(n);
        proof {
            assert(self.acc@ =~= Seq::new(n as nat, |i: int| 0i64));
        }
    }

    /// Accumulate the squared gradient and return the scaled step.
    /// The accumulator never decreases: each entry grows by the square of
    /// the matching gradient entry.
    pub fn optimize(&mut self, g: &Vec<i64>) -> (r: Vec<i64>)
        requires
            old(self).wf(),
            all_fx_ok(g@),
        ensures
            final(self).wf(),
            final(self).acc_view().len() == g@.len(),
            forall|i: int| 0 <= i < g@.len() ==> final(self).acc_view()[i] as int == adagrad_acc_s(
                eff(old(self).acc_view(), g@.len() as nat)[i] as int,
                g@[i] as int,
            ),
            forall|i: int| 0 <= i < g@.len() ==> final(self).acc_view()[i]
                >= eff(old(self).acc_view(), g@.len() as nat)[i],
            r@.len() == g@.len(),
            forall|i: int| 0 <= i < g@.len() ==> r@[i] as int == adagrad_adj_s(
                final(self).acc_view()[i] as int,
                g@[i] as int,
            ),
            all_fx_ok(r@),
    {
        let n: usize = g.len();
        if self.acc.len() != n {
            self.acc = zeros(n);
        }
        let ghost acc0 = eff(old(self).acc@, n as nat);
        proof {
            assert(self.acc@ =~= acc0);
        }
        let mut r: Vec<i64> = Vec::new();
        let mut i: usize = 0;
        while i < n
            invariant
                i <= n,
                n == g@.len(),
                all_fx_ok(g@),
                self.acc@.len() == n,
                acc0.len() == n,
                acc_ok(acc0),
                forall|t: int| 0 <= t < i ==> self.acc@[t] as int == adagrad_acc_s(
                    acc0[t] as int,
                    g@[t] as int,
                ),
                forall|t: int| 0 <= t < i ==> self.acc@[t] >= acc0[t],
                forall|t: int| i <= t < n ==> self.acc@[t] == acc0[t],
                acc_ok(self.acc@),
                r@.len() == i,
                forall|t: int| 0 <= t < i ==> r@[t] as int == adagrad_adj_s(
                    self.acc@[t] as int,
                    g@[t] as int,
                ),
                all_fx_ok(r@),
            decreases n - i,
        {
            proof {
                lemma_fx_mul_sign(g@[i as int] as int, g@[i as int] as int);
            }
            let sq: i64 = fx_mul(g[i], g[i]);
            let a2: i64 = fx_add(self.acc[i], sq);
            self.acc.set(i, a2);
            let root: i64 = fx_sqrt(a2);
            r.push(fx_div(g[i], root));
            i = i + 1;
        }
        r
    }
}

/// The polymorphic optimizer: a tagged union of the five update rules.
/// Every layer owns fresh instances with zeroed state, never shared.
pub enum Optimizer {
    /// Plain stochastic gradient descent: the step is the gradient itself.
    Sgd,
    /// Gradient descent with a decayed velocity accumulator.
    Momentum { vel: Vec<i64> },
    /// The accumulated squared-gradient rule.
    Ada(AdaGrad),
    /// The exponentially decayed squared-gradient rule.
    RmsProp { acc: Vec<i64> },
    /// Bias-corrected first and second moment estimates.
    Adam { m: Vec<i64>, v: Vec<i64>, bp1: i64, bp2: i64 },
}

impl Optimizer {
    /// Internal state is well formed: accumulators hold well-formed values,
    /// squared-gradient statistics are non-negative, and Adam's decay powers
    /// lie in the unit interval.
    pub open spec fn wf(&self) -> bool {
        match *self {
            Optimizer::Sgd => true,
            Optimizer::Momentum { vel } => all_fx_ok(vel@),
            Optimizer::Ada(a) => a.wf(),
            Optimizer::RmsProp { acc } => acc_ok(acc@),
            Optimizer::Adam { m, v, bp1, bp2 } => all_fx_ok(m@) && acc_ok(v@) && 0 <= bp1
                <= SCALE && 0 <= bp2 <= SCALE && m@.len() == v@.len(),
        }
    }

    /// The rule this optimizer follows, with empty state.
    pub open spec fn kind(&self) -> int {
        match *self {
            Optimizer::Sgd => 0,
            Optimizer::Momentum { .. } => 1,
            Optimizer::Ada(..) => 2,
            Optimizer::RmsProp { .. } => 3,
            Optimizer::Adam { .. } => 4,
        }
    }

    /// A fresh instance of the same rule with zeroed statistics: cloning an
    /// optimizer template must never share accumulator state.
    pub fn fresh_like(&self) -> (r: Optimizer)
        ensures
            r.kind() == self.kind(),
            r.wf(),
            r.state_len() == 0,
    {
        match self {
            Optimizer::Sgd => Optimizer::Sgd,
            Optimizer::Momentum { .. } => Optimizer::Momentum { vel: Vec::new() },
            Optimizer::Ada(..) => Optimizer::Ada(AdaGrad::new()),
            Optimizer::RmsProp { .. } => Optimizer::RmsProp { acc: Vec::new() },
            Optimizer::Adam { .. } => Optimizer::Adam {
                m: Vec::new(),
                v: Vec::new(),
                bp1: SCALE,
                bp2: SCALE,
            },
        }
    }

    /// How many entries of running state are held.
    pub open spec fn state_len(&self) -> nat {
        match *self {
            Optimizer::Sgd => 0,
            Optimizer::Momentum { vel } => vel@.len(),
            Optimizer::Ada(a) => a.acc_view().len(),
            Optimizer::RmsProp { acc } => acc@.len(),
            Optimizer::Adam { m, .. } => m@.len(),
        }
    }

    /// Consume a raw gradient, update the running statistics, and return the
    /// adjusted step the layer subtracts (scaled by the learning rate).
    pub fn optimize(&mut self, g: &Vec<i64>) -> (r: Vec<i64>)
        requires
            old(self).wf(),
            all_fx_ok(g@),
        ensures
            final(self).wf(),
            final(self).kind() == old(self).kind(),
            r@.len() == g@.len(),
            all_fx_ok(r@),
            opt_step_post(*old(self), *final(self), g@, r@),
    {
        match self {
            Optimizer::Sgd => {
                let mut r: Vec<i64> = Vec::new();
                let n: usize = g.len();
                let mut i: usize = 0;
                while i < n
                    invariant
                        i <= n,
                        n == g@.len(),
                        r@.len() == i,
                        forall|t: int| 0 <= t < i ==> r@[t] == g@[t],
                        all_fx_ok(g@),
                        all_fx_ok(r@),
                    decreases n - i,
                {
                    r.push(g[i]);
                    i = i + 1;
                }
                proof {
                    assert(r@ =~= g@);
                }
                r
            },
            Optimizer::Momentum { vel } => {
                let n: usize = g.len();
                if vel.len() != n {
                    *vel = zeros(n);
                }
                let ghost v0 = eff(old(self)->Momentum_vel@, n as nat);
                proof {
                    assert(vel@ =~= v0);
                }
                let mut r: Vec<i64> = Vec::new();
                let mut i: usize = 0;
                while i < n
                    invariant
                        i <= n,
                        n == g@.len(),
                        all_fx_ok(g@),
                        vel@.len() == n,
                        v0.len() == n,
                        all_fx_ok(v0),
                        forall|t: int| 0 <= t < i ==> vel@[t] as int == momentum_vel_s(
                            v0[t] as int,
                            g@[t] as int,
                        ),
                        forall|t: int| i <= t < n ==> vel@[t] == v0[t],
                        all_fx_ok(vel@),
                        r@.len() == i,
                        forall|t: int| 0 <= t < i ==> r@[t] == vel@[t],
                        all_fx_ok(r@),
                    decreases n - i,
                {
                    let nv: i64 = fx_add(fx_mul(FX_DECAY, vel[i]), g[i]);
                    vel.set(i, nv);
                    r.push(nv);
                    i = i + 1;
                }
                r
            },
            Optimizer::Ada(a) => a.optimize(g),
            Optimizer::RmsProp { acc } => {
                let n: usize = g.len();
                if acc.len() != n {
                    *acc = zeros(n);
                }
                let ghost a0 = eff(old(self)->RmsProp_acc@, n as nat);
                proof {
                    assert(acc@ =~= a0);
                }
                let mut r: Vec<i64> = Vec::new();
                let mut i: usize = 0;
                while i < n
                    invariant
                        i <= n,
                        n == g@.len(),
                        all_fx_ok(g@),
                        acc@.len() == n,
                        a0.len() == n,
                        acc_ok(a0),
                        forall|t: int| 0 <= t < i ==> acc@[t] as int == rms_acc_s(
                            a0[t] as int,
                            g@[t] as int,
                        ),
                        forall|t: int| i <= t < n ==> acc@[t] == a0[t],
                        acc_ok(acc@),
                        r@.len() == i,
                        forall|t: int| 0 <= t < i ==> r@[t] as int == adagrad_adj_s(
                            acc@[t] as int,
                            g@[t] as int,
                        ),
                        all_fx_ok(r@),
                    decreases n - i,
                {
                    proof {
                        lemma_fx_mul_sign(g@[i as int] as int, g@[i as int] as int);
                        lemma_fx_mul_sign(
                            FX_ONE_MINUS_DECAY as int,
                            fx_mul_s(g@[i as int] as int, g@[i as int] as int),
                        );
                        lemma_fx_mul_sign(FX_DECAY as int, acc@[i as int] as int);
                    }
                    let sq: i64 = fx_mul(FX_ONE_MINUS_DECAY, fx_mul(g[i], g[i]));
                    let a2: i64 = fx_add(fx_mul(FX_DECAY, acc[i]), sq);
                    acc.set(i, a2);
                    let root: i64 = fx_sqrt(a2);
                    r.push(fx_div(g[i], root));
                    i = i + 1;
                }
                r
            },
            Optimizer::Adam { m, v, bp1, bp2 } => {
                let n: usize = g.len();
                if m.len() != n || v.len() != n {
                    *m = zeros(n);
                    *v = zeros(n);
                }
                let ghost m0 = if old(self)->Adam_m@.len() == n && old(self)->Adam_v@.len()
                    == n {
                    old(self)->Adam_m@
                } else {
                    Seq::new(n as nat, |i: int| 0i64)
                };
                let ghost v0 = if old(self)->Adam_m@.len() == n && old(self)->Adam_v@.len()
                    == n {
                    old(self)->Adam_v@
                } else {
                    Seq::new(n as nat, |i: int| 0i64)
                };
                proof {
                    assert(m@ =~= m0);
                    assert(v@ =~= v0);
                    crate::fx::lemma_fx_mul_unit(old(self)->Adam_bp1 as int, FX_DECAY as int);
                    crate::fx::lemma_fx_mul_unit(old(self)->Adam_bp2 as int, FX_DECAY2 as int);
                }
                let nbp1: i64 = fx_mul(*bp1, FX_DECAY);
                let nbp2: i64 = fx_mul(*bp2, FX_DECAY2);
                *bp1 = nbp1;
                *bp2 = nbp2;
                let mut r: Vec<i64> = Vec::new();
                let mut i: usize = 0;
                while i < n
                    invariant
                        i <= n,
                        n == g@.len(),
                        all_fx_ok(g@),
                        m@.len() == n,
                        v@.len() == n,
                        m0.len() == n,
                        v0.len() == n,
                        all_fx_ok(m0),
                        acc_ok(v0),
                        nbp1 == *bp1,
                        nbp2 == *bp2,
                        0 <= nbp1 <= SCALE,
                        0 <= nbp2 <= SCALE,
                        forall|t: int| 0 <= t < i ==> m@[t] as int == adam_m_s(
                            m0[t] as int,
                            g@[t] as int,
                        ),
                        forall|t: int| 0 <= t < i ==> v@[t] as int == adam_v_s(
                            v0[t] as int,
                            g@[t] as int,
                        ),
                        forall|t: int| i <= t < n ==> m@[t] == m0[t],
                        forall|t: int| i <= t < n ==> v@[t] == v0[t],
                        all_fx_ok(m@),
                        acc_ok(v@),
                        r@.len() == i,
                        forall|t: int| 0 <= t < i ==> r@[t] as int == adam_adj_s(
                            m@[t] as int,
                            v@[t] as int,
                            nbp1 as int,
                            nbp2 as int,
                            g@[t] as int,
                        ),
                        all_fx_ok(r@),
                    decreases n - i,
                {
                    proof {
                        lemma_fx_mul_sign(g@[i as int] as int, g@[i as int] as int);
                        lemma_fx_mul_sign(
                            FX_ONE_MINUS_DECAY2 as int,
                            fx_mul_s(g@[i as int] as int, g@[i as int] as int),
                        );
                        lemma_fx_mul_sign(FX_DECAY2 as int, v@[i as int] as int);
                    }
                    let nm: i64 = fx_add(fx_mul(FX_DECAY, m[i]), fx_mul(FX_ONE_MINUS_DECAY, g[i]));
                    let nvv: i64 = fx_add(
                        fx_mul(FX_DECAY2, v[i]),
                        fx_mul(FX_ONE_MINUS_DECAY2, fx_mul(g[i], g[i])),
                    );
                    m.set(i, nm);
                    v.set(i, nvv);
                    let mhat: i64 = fx_div(nm, fx_sub(SCALE, nbp1));
                    let vhat: i64 = fx_div(nvv, fx_sub(SCALE, nbp2));
                    proof {
                        crate::fx::lemma_fx_div_sign(nvv as int, fx_sub_s(SCALE as int, nbp2 as int));
                    }
                    let root: i64 = fx_sqrt(vhat);
                    r.push(fx_div(mhat, fx_add(root, FX_ADAM_EPS)));
                    i = i + 1;
                }
                r
            },
        }
    }
}

/// What one optimizer step does, per rule, relating the old state, the new
/// state and the returned step, elementwise over the gradient.
pub open spec fn opt_step_post(o0: Optimizer, o1: Optimizer, g: Seq<i64>, r: Seq<i64>) -> bool {
    match o0 {
        Optimizer::Sgd => o1 == o0 && r == g,
        Optimizer::Momentum { vel } => {
            let v0 = eff(vel@, g.len() as nat);
            &&& o1 matches Optimizer::Momentum { vel: v1 }
            &&& v1@.len() == g.len()
            &&& forall|i: int| 0 <= i < g.len() ==> v1@[i] as int == momentum_vel_s(
                v0[i] as int,
                g[i] as int,
            )
            &&& forall|i: int| 0 <= i < g.len() ==> r[i] == v1@[i]
        },
        Optimizer::Ada(a) => {
            let a0 = eff(a.acc_view(), g.len() as nat);
            &&& o1 matches Optimizer::Ada(a1)
            &&& a1.acc_view().len() == g.len()
            &&& forall|i: int| 0 <= i < g.len() ==> a1.acc_view()[i] as int == adagrad_acc_s(
                a0[i] as int,
                g[i] as int,
            )
            &&& forall|i: int| 0 <= i < g.len() ==> a1.acc_view()[i] >= a0[i]
            &&& forall|i: int| 0 <= i < g.len() ==> r[i] as int == adagrad_adj_s(
                a1.acc_view()[i] as int,
                g[i] as int,
            )
        },
        Optimizer::RmsProp { acc } => {
            let a0 = eff(acc@, g.len() as nat);
            &&& o1 matches Optimizer::RmsProp { acc: a1 }
            &&& a1@.len() == g.len()
            &&& forall|i: int| 0 <= i < g.len() ==> a1@[i] as int == rms_acc_s(
                a0[i] as int,
                g[i] as int,
            )
            &&& forall|i: int| 0 <= i < g.len() ==> r[i] as int == adagrad_adj_s(
                a1@[i] as int,
                g[i] as int,
            )
        },
        Optimizer::Adam { m, v, bp1, bp2 } => {
            let sized = m@.len() == g.len() && v@.len() == g.len();
            let m0 = if sized {
                m@
            } else {
                Seq::new(g.len(), |i: int| 0i64)
            };
            let v0 = if sized {
                v@
            } else {
                Seq::new(g.len(), |i: int| 0i64)
            };
            &&& o1 matches Optimizer::Adam { m: m1, v: v1, bp1: nbp1, bp2: nbp2 }
            &&& nbp1 as int == fx_mul_s(bp1 as int, FX_DECAY as int)
            &&& nbp2 as int == fx_mul_s(bp2 as int, FX_DECAY2 as int)
            &&& m1@.len() == g.len()
            &&& v1@.len() == g.len()
            &&& forall|i: int| 0 <= i < g.len() ==> m1@[i] as int == adam_m_s(
                m0[i] as int,
                g[i] as int,
            )
            &&& forall|i: int| 0 <= i < g.len() ==> v1@[i] as int == adam_v_s(
                v0[i] as int,
                g[i] as int,
            )
            &&& forall|i: int| 0 <= i < g.len() ==> r[i] as int == adam_adj_s(
                m1@[i] as int,
                v1@[i] as int,
                nbp1 as int,
                nbp2 as int,
                g[i] as int,
            )
        },
    }
}

} // verus!