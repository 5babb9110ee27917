use vstd::prelude::*;
use crate::fx::fx_ok;
use crate::vecops::all_fx_ok;
use crate::layers::Layer;
use crate::losses::{Loss, loss_deriv_s, loss_score_s};
use crate::vecops::vsub_s;
use crate::vecops::vsub;
use crate::optimizers::Optimizer;
use crate::tensor::{prod, dims_ok, prod_checked, Tensor};

verus! {

/// The network: an ordered stack of layers, one loss, one optimizer
/// template cloned into every layer, and the scalar hyperparameters.
/// Forward runs the stack in order; training then runs the gradient through
/// the stack in reverse, updating each layer's parameters.

/// The error conditions of network assembly and use.
#[derive(Clone, Copy, Debug, PartialEq, Eq, Structural)]
pub enum NetError {
    /// Incompatible tensor shapes between adjacent layers or between a
    /// prediction and a target.
    ShapeMismatch,
    /// A backward pass was asked for before any forward pass.
    UninitializedState,
    /// An unknown loss or optimizer name at construction.
    UnknownVariant,
    /// A hyperparameter outside its allowed range.
    InvalidParameter,
}

/// Every layer's internal invariant holds.
pub open spec fn layers_wf(ls: Seq<Layer>) -> bool {
    forall|k: int| 0 <= k < ls.len() ==> (#[trigger] ls[k]).wf()
}

/// The activation length after the first k layers, starting from n0.
pub open spec fn chain_len(ls: Seq<Layer>, n0: nat, k: nat) -> nat
    decreases k,
{
    if k == 0 {
        n0
    } else {
        ls[k - 1].out_len(chain_len(ls, n0, (k - 1) as nat))
    }
}

/// Adjacent layers agree on the activation length flowing between them.
pub open spec fn chain_ok(ls: Seq<Layer>, n0: nat) -> bool {
    forall|k: int| 0 <= k < ls.len() ==> (#[trigger] ls[k]).in_ok(chain_len(ls, n0, k as nat))
}

/// The output of the stack's first k layers: a function of the parameters
/// and the input alone.
pub open spec fn net_fwd_pure(ls: Seq<Layer>, x: Seq<i64>, k: nat) -> Seq<i64>
    decreases k,
{
    if k == 0 {
        x
    } else {
        ls[k - 1].out_pure(net_fwd_pure(ls, x, (k - 1) as nat))
    }
}

/// One layer's pure output is well formed and has the declared length.
pub proof fn lemma_out_pure_ok(l: Layer, x: Seq<i64>)
    requires
        l.wf(),
        l.in_ok(x.len()),
        all_fx_ok(x),
    ensures
        all_fx_ok(l.out_pure(x)),
        l.out_pure(x).len() == l.out_len(x.len()),
{
}

/// The pure network output is well formed and has the chained length.
pub proof fn lemma_net_fwd_ok(ls: Seq<Layer>, x: Seq<i64>, k: nat)
    requires
        layers_wf(ls),
        chain_ok(ls, x.len()),
        all_fx_ok(x),
        k <= ls.len(),
    ensures
        all_fx_ok(net_fwd_pure(ls, x, k)),
        net_fwd_pure(ls, x, k).len() == chain_len(ls, x.len(), k),
    decreases k,
{
    if k > 0 {
        lemma_net_fwd_ok(ls, x, (k - 1) as nat);
        lemma_out_pure_ok(ls[k - 1], net_fwd_pure(ls, x, (k - 1) as nat));
    }
}

/// Two stacks whose layers are parameter-equal chain the same lengths and
/// compute the same pure outputs.
pub proof fn lemma_net_params_eq(ls0: Seq<Layer>, ls1: Seq<Layer>, x: Seq<i64>, k: nat)
    requires
        ls0.len() == ls1.len(),
        forall|t: int| 0 <= t < ls0.len() ==> Layer::params_eq(#[trigger] ls0[t], ls1[t]),
        k <= ls0.len(),
    ensures
        net_fwd_pure(ls0, x, k) == net_fwd_pure(ls1, x, k),
        chain_len(ls0, x.len(), k) == chain_len(ls1, x.len(), k),
    decreases k,
{
    if k > 0 {
        lemma_net_params_eq(ls0, ls1, x, (k - 1) as nat);
        Layer::lemma_params_eq_out(ls0[k - 1], ls1[k - 1], net_fwd_pure(ls0, x, (k - 1) as nat));
    }
}

/// Same variants and dimensions: what the length chain depends on.
pub open spec fn dims_eq(l0: Layer, l1: Layer) -> bool {
    match l0 {
        Layer::Dense(d0) => {
            &&& l1 matches Layer::Dense(d1)
            &&& d0.in_dim == d1.in_dim
            &&& d0.out_dim == d1.out_dim
        },
        Layer::Conv(c0) => {
            &&& l1 matches Layer::Conv(c1)
            &&& c0.in_rows == c1.in_rows
            &&& c0.in_cols == c1.in_cols
            &&& c0.k_rows == c1.k_rows
            &&& c0.k_cols == c1.k_cols
            &&& c0.filters == c1.filters
            &&& c0.padding == c1.padding
        },
        Layer::Sigmoid(_) => l1 is Sigmoid,
        Layer::Relu(_) => l1 is Relu,
        Layer::Flatten(_) => l1 is Flatten,
    }
}

/// Dimension-equal stacks chain the same lengths and accept the same inputs.
pub proof fn lemma_net_dims_eq(ls0: Seq<Layer>, ls1: Seq<Layer>, n0: nat, k: nat)
    requires
        ls0.len() == ls1.len(),
        forall|t: int| 0 <= t < ls0.len() ==> dims_eq(#[trigger] ls0[t], ls1[t]),
        k <= ls0.len(),
    ensures
        chain_len(ls0, n0, k) == chain_len(ls1, n0, k),
    decreases k,
{
    if k > 0 {
        lemma_net_dims_eq(ls0, ls1, n0, (k - 1) as nat);
    }
}

/// Dimension-equal stacks accept the same inputs along the chain.
pub proof fn lemma_net_dims_chain_ok(ls0: Seq<Layer>, ls1: Seq<Layer>, n0: nat)
    requires
        ls0.len() == ls1.len(),
        forall|t: int| 0 <= t < ls0.len() ==> dims_eq(#[trigger] ls0[t], ls1[t]),
        chain_ok(ls0, n0),
    ensures
        chain_ok(ls1, n0),
        chain_len(ls0, n0, ls0.len()) == chain_len(ls1, n0, ls1.len()),
{
    assert forall|t: int| 0 <= t < ls1.len() implies (#[trigger] ls1[t]).in_ok(
        chain_len(ls1, n0, t as nat),
    ) by {
        lemma_net_dims_eq(ls0, ls1, n0, t as nat);
        assert(ls0[t].in_ok(chain_len(ls0, n0, t as nat)));
    }
    lemma_net_dims_eq(ls0, ls1, n0, ls0.len());
}

/// What a full forward sweep does to the stack: each layer's caches now
/// hold the activation that reached it, and no parameters moved.
pub open spec fn net_fwd_post(ls0: Seq<Layer>, ls1: Seq<Layer>, x: Seq<i64>) -> bool {
    &&& ls1.len() == ls0.len()
    &&& forall|k: int| 0 <= k < ls0.len() ==> Layer::fwd_post(
        #[trigger] ls0[k],
        ls1[k],
        net_fwd_pure(ls0, x, k as nat),
    )
}

/// The gradient lengths chain backward from layer hi down to layer 0.
pub open spec fn bwd_chain_ok(ls: Seq<Layer>, glen: nat, hi: int) -> bool
    decreases hi + 1,
{
    if hi < 0 {
        true
    } else {
        ls[hi].bwd_in_ok(glen) && bwd_chain_ok(ls, ls[hi].back_len(glen), hi - 1)
    }
}

/// bwd_chain_ok reads only the entries at hi and below.
pub proof fn lemma_bwd_chain_frame(ls0: Seq<Layer>, ls1: Seq<Layer>, glen: nat, hi: int)
    requires
        ls0.len() == ls1.len(),
        hi < ls0.len(),
        forall|t: int| 0 <= t <= hi ==> ls0[t] == ls1[t],
        bwd_chain_ok(ls0, glen, hi),
    ensures
        bwd_chain_ok(ls1, glen, hi),
    decreases hi + 1,
{
    if hi >= 0 {
        lemma_bwd_chain_frame(ls0, ls1, ls0[hi].back_len(glen), hi - 1);
    }
}

/// What a backward sweep from layer hi down to layer 0 does: each layer in
/// turn transforms the gradient and updates its parameters.
pub open spec fn net_bwd_post(ls0: Seq<Layer>, ls1: Seq<Layer>, g: Seq<i64>, hi: int) -> bool
    decreases hi + 1,
{
    if hi < 0 {
        ls1 == ls0
    } else {
        exists|lmid: Layer, gmid: Seq<i64>|
            #[trigger] Layer::bwd_post(ls0[hi], lmid, g, gmid) && net_bwd_post(
                ls0.update(hi, lmid),
                ls1,
                gmid,
                hi - 1,
            )
    }
}

/// Run the stack's first `cnt` layers forward in order, caching as we go.
pub(crate) fn forward_layers(layers: &mut Vec<Layer>, x: Vec<i64>) -> (r: Vec<i64>)
    requires
        layers_wf(old(layers)@),
        chain_ok(old(layers)@, x@.len() as nat),
        all_fx_ok(x@),
    ensures
        r@ == net_fwd_pure(old(layers)@, x@, old(layers)@.len() as nat),
        r@.len() == chain_len(old(layers)@, x@.len() as nat, old(layers)@.len() as nat),
        all_fx_ok(r@),
        final(layers)@.len() == old(layers)@.len(),
        layers_wf(final(layers)@),
        net_fwd_post(old(layers)@, final(layers)@, x@),
        bwd_chain_ok(final(layers)@, r@.len() as nat, old(layers)@.len() - 1),
{
    let ghost ls0 = layers@;
    let ghost n0 = x@.len() as nat;
    let n: usize = layers.len();
    let mut cur: Vec<i64> = x;
    let mut i: usize = 0;
    while i < n
        invariant
            i <= n,
            n == layers@.len() == ls0.len(),
            layers_wf(ls0),
            chain_ok(ls0, n0),
            layers_wf(layers@),
            forall|k: int| i <= k < n ==> layers@[k] == ls0[k],
            forall|k: int| 0 <= k < i ==> Layer::fwd_post(
                #[trigger] ls0[k],
                layers@[k],
                net_fwd_pure(ls0, x@, k as nat),
            ),
            cur@ == net_fwd_pure(ls0, x@, i as nat),
            cur@.len() == chain_len(ls0, n0, i as nat),
            all_fx_ok(cur@),
            n0 == x@.len(),
            bwd_chain_ok(layers@, cur@.len() as nat, i - 1),
        decreases n - i,
    {
        let ghost ls_before = layers@;
        let ghost cur_before = cur@;
        proof {
            assert(ls0[i as int].in_ok(chain_len(ls0, n0, i as nat)));
        }
        let mut l: Layer = layers.remove(i);
        let out: Vec<i64> = l.forward(&cur);
        layers.insert(i, l);
        proof {
            assert(layers@ =~= ls_before.update(i as int, layers@[i as int]));
            assert(out@ == net_fwd_pure(ls0, x@, (i + 1) as nat));
            assert forall|t: int| 0 <= t <= i - 1 implies ls_before[t] == layers@[t] by {}
            lemma_bwd_chain_frame(ls_before, layers@, cur_before.len() as nat, i - 1);
            assert(layers@[i as int].bwd_in_ok(out@.len() as nat));
            assert(layers@[i as int].back_len(out@.len() as nat) == cur_before.len());
            assert(bwd_chain_ok(layers@, out@.len() as nat, i as int));
        }
        cur = out;
        i = i + 1;
    }
    cur
}

/// Run the gradient backward through layers cnt-1 down to 0, updating each
/// layer's parameters along the way.
pub(crate) fn backward_layers(layers: &mut Vec<Layer>, g: &Vec<i64>, cnt: usize)
    requires
        cnt <= old(layers)@.len(),
        layers_wf(old(layers)@),
        all_fx_ok(g@),
        bwd_chain_ok(old(layers)@, g@.len() as nat, cnt - 1),
    ensures
        final(layers)@.len() == old(layers)@.len(),
        layers_wf(final(layers)@),
        net_bwd_post(old(layers)@, final(layers)@, g@, cnt - 1),
        forall|t: int| 0 <= t < old(layers)@.len() ==> dims_eq(
            #[trigger] old(layers)@[t],
            final(layers)@[t],
        ),
    decreases cnt,
{
    if cnt == 0 {
        return ;
    }
    let ghost ls0 = layers@;
    let i: usize = cnt - 1;
    let mut l: Layer = layers.remove(i);
    let g2: Vec<i64> = l.backward(g);
    let ghost lmid = l;
    layers.insert(i, l);
    proof {
        assert(layers@ =~= ls0.update(i as int, lmid));
        assert forall|t: int| 0 <= t <= i - 1 implies ls0[t] == layers@[t] by {}
        lemma_bwd_chain_frame(ls0, layers@, ls0[i as int].back_len(g@.len() as nat), i - 1);
    }
    backward_layers(layers, &g2, i);
    proof {
        assert(Layer::bwd_post(ls0[i as int], lmid, g@, g2@));
        assert(net_bwd_post(ls0.update(i as int, lmid), layers@, g2@, i - 1));
        assert(net_bwd_post(ls0, layers@, g@, cnt - 1));
        assert(dims_eq(ls0[i as int], lmid));
        assert forall|t: int| 0 <= t < ls0.len() implies dims_eq(#[trigger] ls0[t], layers@[t]) by {
            assert(dims_eq(ls0.update(i as int, lmid)[t], layers@[t]));
            if t != i {
                assert(ls0[t] == ls0.update(i as int, lmid)[t]);
            }
        }
    }
}

/// The default learning rate used until the caller sets one.
pub const FX_LR_DEFAULT: i64 = 42949673;

/// Recognized loss names.
pub open spec fn loss_name_ok(s: Seq<char>) -> bool {
    s == "mse"@ || s == "bce"@ || s == "cce"@
}

pub open spec fn loss_of_name(s: Seq<char>) -> Loss {
    if s == "mse"@ {
        Loss::Mse
    } else if s == "bce"@ {
        Loss::Bce
    } else {
        Loss::Cce
    }
}

/// Recognized optimizer names; "noop" falls back to plain gradient descent.
pub open spec fn opt_name_ok(s: Seq<char>) -> bool {
    s == "sgd"@ || s == "noop"@ || s == "momentum"@ || s == "adagrad"@ || s == "rmsprop"@ || s
        == "adam"@
}

pub open spec fn opt_kind_of_name(s: Seq<char>) -> int {
    if s == "sgd"@ || s == "noop"@ {
        0
    } else if s == "momentum"@ {
        1
    } else if s == "adagrad"@ {
        2
    } else if s == "rmsprop"@ {
        3
    } else {
        4
    }
}

fn parse_loss(name: &String) -> (r: Option<Loss>)
    ensures
        r is Some <==> loss_name_ok(name@),
        r is Some ==> r->0 == loss_of_name(name@),
{
    if name.eq(&String::from_str("mse")) {
        Some(Loss::Mse)
    } else if name.eq(&String::from_str("bce")) {
        Some(Loss::Bce)
    } else if name.eq(&String::from_str("cce")) {
        Some(Loss::Cce)
    } else {
        None
    }
}

fn parse_optimizer(name: &String) -> (r: Option<Optimizer>)
    ensures
        r is Some <==> opt_name_ok(name@),
        r is Some ==> r->0.kind() == opt_kind_of_name(name@) && r->0.wf() && r->0.state_len()
            == 0,
{
    if name.eq(&String::from_str("sgd")) || name.eq(&String::from_str("noop")) {
        Some(Optimizer::Sgd)
    } else if name.eq(&String::from_str("momentum")) {
        Some(Optimizer::Momentum { vel: Vec::new() })
    } else if name.eq(&String::from_str("adagrad")) {
        Some(Optimizer::Ada(crate::optimizers::AdaGrad::new()))
    } else if name.eq(&String::from_str("rmsprop")) {
        Some(Optimizer::RmsProp { acc: Vec::new() })
    } else if name.eq(&String::from_str("adam")) {
        Some(
            Optimizer::Adam {
                m: Vec::new(),
                v: Vec::new(),
                bp1: crate::fx::SCALE,
                bp2: crate::fx::SCALE,
            },
        )
    } else {
        None
    }
}

fn shapes_eq(a: &Vec<usize>, b: &Vec<usize>) -> (r: bool)
    ensures
        r <==> a@ == b@,
{
    let n: usize = a.len();
    if n != b.len() {
        proof {
            assert(a@ != b@);
        }
        return false;
    }
    let mut i: usize = 0;
    while i < n
        invariant
            i <= n,
            n == a@.len() == b@.len(),
            forall|j: int| 0 <= j < i ==> a@[j] == b@[j],
        decreases n - i,
    {
        if a[i] != b[i] {
            proof {
                assert(a@[i as int] != b@[i as int]);
            }
            return false;
        }
        i = i + 1;
    }
    proof {
        assert(a@ =~= b@);
    }
    true
}

/// The saturating left-to-right sum of the first n entries.
pub open spec fn fx_sum_s(v: Seq<i64>, n: nat) -> int
    decreases n,
{
    if n == 0 {
        0
    } else {
        crate::fx::fx_add_s(fx_sum_s(v, (n - 1) as nat), v[n - 1] as int)
    }
}

/// The mean of the entries: the saturating sum over the count.
pub open spec fn fx_mean_s(v: Seq<i64>) -> int {
    crate::fx::fx_sdivn_s(fx_sum_s(v, v.len()), v.len() as int)
}

fn fx_mean(v: &Vec<i64>) -> (r: i64)
    requires
        v@.len() >= 1,
        all_fx_ok(v@),
    ensures
        r == fx_mean_s(v@),
        fx_ok(r as int),
        (forall|i: int| 0 <= i < v@.len() ==> #[trigger] v@[i] >= 0) ==> r >= 0,
{
    let n: usize = v.len();
    let mut acc: i64 = 0;
    let mut i: usize = 0;
    while i < n
        invariant
            i <= n,
            n == v@.len(),
            all_fx_ok(v@),
            acc == fx_sum_s(v@, i as nat),
            fx_ok(acc as int),
            (forall|j: int| 0 <= j < v@.len() ==> #[trigger] v@[j] >= 0) ==> acc >= 0,
        decreases n - i,
    {
        acc = crate::fx::fx_add(acc, v[i]);
        i = i + 1;
    }
    crate::fx::fx_sdivn(acc, n as u64)
}

/// Whether the network routes the fused from-logits path: a cross-entropy
/// loss sitting behind a final sigmoid activation, decided at assembly.
pub open spec fn fused(ls: Seq<Layer>, loss: Loss) -> bool {
    loss is Bce && ls.len() >= 1 && ls[ls.len() - 1] is Sigmoid
}

/// The gradient a training step feeds into the backward sweep.
pub open spec fn train_grad(ls: Seq<Layer>, x: Seq<i64>, t: Seq<i64>, loss: Loss) -> Seq<i64> {
    let out = net_fwd_pure(ls, x, ls.len());
    if fused(ls, loss) {
        vsub_s(out, t)
    } else {
        loss_deriv_s(loss, out, t)
    }
}

/// The index the backward sweep starts at: the fused path folds the final
/// sigmoid's derivative into the loss gradient and so skips that layer.
pub open spec fn train_hi(ls: Seq<Layer>, loss: Loss) -> int {
    if fused(ls, loss) {
        ls.len() - 2
    } else {
        ls.len() - 1
    }
}

/// One full training step: a forward sweep that caches, then the loss
/// gradient driven backward with parameter updates.
pub open spec fn net_train_post(
    ls0: Seq<Layer>,
    ls1: Seq<Layer>,
    x: Seq<i64>,
    t: Seq<i64>,
    loss: Loss,
) -> bool {
    exists|lsf: Seq<Layer>|
        #[trigger] net_fwd_post(ls0, lsf, x) && net_bwd_post(
            lsf,
            ls1,
            train_grad(ls0, x, t, loss),
            train_hi(ls0, loss),
        )
}

pub struct NeuralNetwork {
    pub input_shape: Vec<usize>,
    pub input_len: usize,
    pub cur_out: usize,
    pub layers: Vec<Layer>,
    pub loss: Loss,
    pub template: Optimizer,
    pub learning_rate: i64,
    pub batch_size: usize,
}

impl NeuralNetwork {
    pub open spec fn wf(&self) -> bool {
        &&& dims_ok(self.input_shape@)
        &&& self.input_len == prod(self.input_shape@)
        &&& layers_wf(self.layers@)
        &&& chain_ok(self.layers@, self.input_len as nat)
        &&& self.cur_out == chain_len(self.layers@, self.input_len as nat, self.layers@.len())
        &&& self.cur_out >= 1
        &&& self.template.wf()
        &&& self.template.state_len() == 0
        &&& fx_ok(self.learning_rate as int)
        &&& self.batch_size >= 1
    }

    /// Assemble an empty network over the given input shape, selecting the
    /// loss and the optimizer template by name. An unrecognized name is
    /// refused with UnknownVariant, a bad shape with ShapeMismatch.
    pub fn new(shape: Vec<usize>, error: String, optimizer: String) -> (r: Result<
        NeuralNetwork,
        NetError,
    >)
        ensures
            r is Ok <==> loss_name_ok(error@) && opt_name_ok(optimizer@) && dims_ok(shape@)
                && prod(shape@) <= usize::MAX,
            r is Err && !(loss_name_ok(error@) && opt_name_ok(optimizer@)) ==> r->Err_0
                == NetError::UnknownVariant,
            r is Err && loss_name_ok(error@) && opt_name_ok(optimizer@) ==> r->Err_0
                == NetError::ShapeMismatch,
            r is Ok ==> {
                let n = r->Ok_0;
                &&& n.wf()
                &&& n.layers@.len() == 0
                &&& n.loss == loss_of_name(error@)
                &&& n.template.kind() == opt_kind_of_name(optimizer@)
                &&& n.input_shape@ == shape@
                &&& n.input_len == prod(shape@)
                &&& n.cur_out == prod(shape@)
                &&& n.batch_size == 1
                &&& n.learning_rate == FX_LR_DEFAULT
            },
    {
        let loss: Loss = match parse_loss(&error) {
            Some(l) => l,
            None => {
                return Err(NetError::UnknownVariant);
            },
        };
        let template: Optimizer = match parse_optimizer(&optimizer) {
            Some(o) => o,
            None => {
                return Err(NetError::UnknownVariant);
            },
        };
        let n: usize = match prod_checked(&shape) {
            Some(p) => p,
            None => {
                return Err(NetError::ShapeMismatch);
            },
        };
        Ok(
            NeuralNetwork {
                input_shape: shape,
                input_len: n,
                cur_out: n,
                layers: Vec::new(),
                loss,
                template,
                learning_rate: FX_LR_DEFAULT,
                batch_size: 1,
            },
        )
    }

    /// A network over a rank-one input.
    pub fn new1d(i_dim: usize, error: String, optimizer: String) -> (r: Result<
        NeuralNetwork,
        NetError,
    >)
        ensures
            r is Ok <==> loss_name_ok(error@) && opt_name_ok(optimizer@) && 1 <= i_dim
                <= crate::tensor::DIM_MAX,
            r is Ok ==> {
                let n = r->Ok_0;
                &&& n.wf()
                &&& n.layers@.len() == 0
                &&& n.loss == loss_of_name(error@)
                &&& n.template.kind() == opt_kind_of_name(optimizer@)
                &&& n.input_shape@ =~= seq![i_dim]
                &&& n.input_len == i_dim
                &&& n.cur_out == i_dim
            },
    {
        let mut shape: Vec<usize> = Vec::new();
        shape.push(i_dim);
        proof {
            assert(shape@ =~= seq![i_dim]);
            assert(shape@.skip(1) =~= Seq::<usize>::empty());
            assert(prod(Seq::<usize>::empty()) == 1);
            assert(prod(shape@) == i_dim);
        }
        NeuralNetwork::new(shape, error, optimizer)
    }

    /// A network over a rank-two input.
    pub fn new2d(dims: (usize, usize), error: String, optimizer: String) -> (r: Result<
        NeuralNetwork,
        NetError,
    >)
        ensures
            r is Ok <==> loss_name_ok(error@) && opt_name_ok(optimizer@) && 1 <= dims.0
                <= crate::tensor::DIM_MAX && 1 <= dims.1 <= crate::tensor::DIM_MAX,
            r is Ok ==> {
                let n = r->Ok_0;
                &&& n.wf()
                &&& n.layers@.len() == 0
                &&& n.loss == loss_of_name(error@)
                &&& n.template.kind() == opt_kind_of_name(optimizer@)
                &&& n.input_shape@ =~= seq![dims.0, dims.1]
                &&& n.input_len == dims.0 * dims.1
                &&& n.cur_out == dims.0 * dims.1
            },
    {
        let mut shape: Vec<usize> = Vec::new();
        shape.push(dims.0);
        shape.push(dims.1);
        proof {
            reveal_with_fuel(prod, 4);
            assert(shape@ =~= seq![dims.0, dims.1]);
            assert(shape@.skip(1) =~= seq![dims.1]);
            assert(shape@.skip(1).skip(1) =~= Seq::<usize>::empty());
            assert(prod(Seq::<usize>::empty()) == 1);
            assert(seq![dims.1].skip(1) =~= Seq::<usize>::empty());
            assert(seq![dims.1].len() == 1);
            assert(prod(seq![dims.1]) == (seq![dims.1][0] * prod(seq![dims.1].skip(1))) as nat);
            assert(prod(seq![dims.1].skip(1)) == 1);
            assert(prod(seq![dims.1]) == dims.1);
            assert(prod(shape@.skip(1)) == dims.1);
            assert(prod(shape@) == dims.0 * dims.1);
            if 1 <= dims.0 <= crate::tensor::DIM_MAX && 1 <= dims.1 <= crate::tensor::DIM_MAX {
                assert((dims.0 as int) * (dims.1 as int) <= 32768 * 32768) by (nonlinear_arith)
                    requires
                        1 <= dims.0 as int <= 32768,
                        1 <= dims.1 as int <= 32768,
                ;
            }
        }
        NeuralNetwork::new(shape, error, optimizer)
    }

    /// A network over a rank-three input.
    pub fn new3d(dims: (usize, usize, usize), error: String, optimizer: String) -> (r: Result<
        NeuralNetwork,
        NetError,
    >)
        ensures
            r is Ok <==> loss_name_ok(error@) && opt_name_ok(optimizer@) && 1 <= dims.0
                <= crate::tensor::DIM_MAX && 1 <= dims.1 <= crate::tensor::DIM_MAX && 1 <= dims.2
                <= crate::tensor::DIM_MAX && dims.0 * (dims.1 * dims.2) <= usize::MAX,
            r is Ok ==> {
                let n = r->Ok_0;
                &&& n.wf()
                &&& n.layers@.len() == 0
                &&& n.loss == loss_of_name(error@)
                &&& n.template.kind() == opt_kind_of_name(optimizer@)
                &&& n.input_shape@ =~= seq![dims.0, dims.1, dims.2]
                &&& n.input_len == dims.0 * (dims.1 * dims.2)
                &&& n.cur_out == dims.0 * (dims.1 * dims.2)
            },
    {
        let mut shape: Vec<usize> = Vec::new();
        shape.push(dims.0);
        shape.push(dims.1);
        shape.push(dims.2);
        proof {
            assert(shape@ =~= seq![dims.0, dims.1, dims.2]);
            assert(shape@.skip(1) =~= seq![dims.1, dims.2]);
            assert(shape@.skip(1).skip(1) =~= seq![dims.2]);
            assert(shape@.skip(1).skip(1).skip(1) =~= Seq::<usize>::empty());
            assert(prod(Seq::<usize>::empty()) == 1);
            assert(prod(shape@.skip(1).skip(1)) == (shape@.skip(1).skip(1)[0] * prod(
                shape@.skip(1).skip(1).skip(1),
            )) as nat);
            assert(prod(shape@.skip(1).skip(1)) == dims.2);
            assert(prod(shape@.skip(1)) == (shape@.skip(1)[0] * prod(
                shape@.skip(1).skip(1),
            )) as nat);
            assert(prod(shape@.skip(1)) == dims.1 * dims.2);
            assert(prod(shape@) == (shape@[0] * prod(shape@.skip(1))) as nat);
            assert(prod(shape@) == dims.0 * (dims.1 * dims.2));
        }
        NeuralNetwork::new(shape, error, optimizer)
    }

    /// Set how many examples a batch holds; the update itself stays
    /// per-example stochastic.
    pub fn set_batch_size(&mut self, bs: usize) -> (r: Result<(), NetError>)
        requires
            old(self).wf(),
        ensures
            r is Ok <==> bs >= 1,
            r is Ok ==> *final(self) == (NeuralNetwork { batch_size: bs, ..*old(self) }),
            r is Err ==> *final(self) == *old(self) && r->Err_0 == NetError::InvalidParameter,
            final(self).wf(),
    {
        if bs < 1 {
            return Err(NetError::InvalidParameter);
        }
        self.batch_size = bs;
        Ok(())
    }

    /// Set the learning rate that layers added from now on will use.
    pub fn set_learning_rate(&mut self, lr: i64) -> (r: Result<(), NetError>)
        requires
            old(self).wf(),
        ensures
            r is Ok <==> 0 < lr && fx_ok(lr as int),
            r is Ok ==> *final(self) == (NeuralNetwork { learning_rate: lr, ..*old(self) }),
            r is Err ==> *final(self) == *old(self) && r->Err_0 == NetError::InvalidParameter,
            final(self).wf(),
    {
        if lr <= 0 || lr > crate::fx::FX_MAX {
            return Err(NetError::InvalidParameter);
        }
        self.learning_rate = lr;
        Ok(())
    }

    /// Replace the loss; recognized by the same names as at construction.
    pub fn set_error_function(&mut self, error: String) -> (r: Result<(), NetError>)
        requires
            old(self).wf(),
        ensures
            r is Ok <==> loss_name_ok(error@),
            r is Ok ==> *final(self) == (NeuralNetwork { loss: loss_of_name(error@), ..*old(self) }),
            r is Err ==> *final(self) == *old(self) && r->Err_0 == NetError::UnknownVariant,
            final(self).wf(),
    {
        match parse_loss(&error) {
            Some(l) => {
                self.loss = l;
                Ok(())
            },
            None => Err(NetError::UnknownVariant),
        }
    }

    /// Replace the optimizer template cloned into layers added from now on.
    pub fn set_optimizer(&mut self, optimizer: String) -> (r: Result<(), NetError>)
        requires
            old(self).wf(),
        ensures
            r is Ok <==> opt_name_ok(optimizer@),
            r is Ok ==> final(self).template.kind() == opt_kind_of_name(optimizer@)
                && final(self).layers == old(self).layers && final(self).loss == old(self).loss,
            r is Err ==> *final(self) == *old(self) && r->Err_0 == NetError::UnknownVariant,
            final(self).wf(),
    {
        match parse_optimizer(&optimizer) {
            Some(o) => {
                self.template = o;
                Ok(())
            },
            None => Err(NetError::UnknownVariant),
        }
    }
}

/// Appending a layer leaves the existing chain untouched.
pub proof fn lemma_chain_push(ls: Seq<Layer>, l: Layer, n0: nat, k: nat)
    requires
        k <= ls.len(),
    ensures
        chain_len(ls.push(l), n0, k) == chain_len(ls, n0, k),
    decreases k,
{
    if k > 0 {
        lemma_chain_push(ls, l, n0, (k - 1) as nat);
    }
}

impl NeuralNetwork {
    /// Append a layer, handing it the activation length the stack currently
    /// produces; push back a layer whose expected input does not match.
    pub fn store_layer(&mut self, l: Layer) -> (r: Result<(), NetError>)
        requires
            old(self).wf(),
            l.wf(),
        ensures
            r is Ok <==> l.in_ok(old(self).cur_out as nat),
            r is Ok ==> final(self).layers@ == old(self).layers@.push(l) && final(self).cur_out
                == l.out_len(old(self).cur_out as nat) && final(self).loss == old(self).loss
                && final(self).template == old(self).template
                && final(self).input_len == old(self).input_len
                && final(self).input_shape == old(self).input_shape
                && final(self).batch_size == old(self).batch_size
                && final(self).learning_rate == old(self).learning_rate,
            r is Err ==> *final(self) == *old(self) && r->Err_0 == NetError::ShapeMismatch,
            final(self).wf(),
    {
        let fits: bool = match &l {
            Layer::Dense(d) => d.in_dim == self.cur_out,
            Layer::Conv(c) => {
                proof {
                    assert((c.in_rows as int) * (c.in_cols as int) <= 0x40000000)
                        by (nonlinear_arith)
                        requires
                            1 <= c.in_rows as int <= 32768,
                            1 <= c.in_cols as int <= 32768,
                    ;
                }
                c.in_rows * c.in_cols == self.cur_out
            },
            _ => true,
        };
        if !fits {
            return Err(NetError::ShapeMismatch);
        }
        let new_out: usize = match &l {
            Layer::Dense(d) => d.out_dim,
            Layer::Conv(c) => {
                let or_: usize = c.in_rows + 2 * c.padding - c.k_rows + 1;
                let oc_: usize = c.in_cols + 2 * c.padding - c.k_cols + 1;
                proof {
                    assert((or_ as int) * (oc_ as int) <= (or_ as int) * (oc_ as int) * (
                    c.filters as int) && (or_ as int) * (oc_ as int) * (c.filters as int) >= 1)
                        by (nonlinear_arith)
                        requires
                            1 <= c.filters as int,
                            1 <= or_ as int,
                            1 <= oc_ as int,
                    ;
                }
                or_ * oc_ * c.filters
            },
            _ => self.cur_out,
        };
        let ghost ls0 = self.layers@;
        let ghost n = ls0.len();
        self.layers.push(l);
        proof {
            assert forall|k: int| 0 <= k < self.layers@.len() implies (
            #[trigger] self.layers@[k]).in_ok(
                chain_len(self.layers@, self.input_len as nat, k as nat),
            ) by {
                lemma_chain_push(ls0, l, self.input_len as nat, k as nat);
                if k < n {
                    assert(self.layers@[k] == ls0[k]);
                    assert(ls0[k].in_ok(chain_len(ls0, self.input_len as nat, k as nat)));
                } else {
                    assert(self.layers@[k] == l);
                    assert(chain_len(ls0, self.input_len as nat, n) == old(self).cur_out);
                }
            }
            lemma_chain_push(ls0, l, self.input_len as nat, n);
            assert(chain_len(self.layers@, self.input_len as nat, self.layers@.len()) == l.out_len(
                old(self).cur_out as nat,
            ));
        }
        self.cur_out = new_out;
        Ok(())
    }

    /// Append a dense layer of the given width, its input width inferred
    /// from the stack, with random weights and the current learning rate
    /// and optimizer template.
    pub fn add_dense(&mut self, units: usize) -> (r: Result<(), NetError>)
        requires
            old(self).wf(),
        ensures
            r is Ok <==> 1 <= units <= crate::tensor::DIM_MAX && old(self).cur_out * units
                <= usize::MAX,
            r is Ok ==> final(self).layers@.len() == old(self).layers@.len() + 1
                && (final(self).layers@.last() matches Layer::Dense(d) && d.in_dim == old(self).cur_out
                && d.out_dim == units && !d.has_input && d.opt_w.kind() == old(self).template.kind()
                && d.opt_b.kind() == old(self).template.kind()
                && d.learning_rate == old(self).learning_rate)
                && final(self).cur_out == units
                && final(self).layers@.subrange(0, old(self).layers@.len() as int)
                == old(self).layers@ && final(self).loss == old(self).loss
                && final(self).input_shape == old(self).input_shape
                && final(self).input_len == old(self).input_len
                && final(self).batch_size == old(self).batch_size
                && final(self).template == old(self).template
                && final(self).learning_rate == old(self).learning_rate,
            r is Err ==> *final(self) == *old(self) && r->Err_0 == NetError::InvalidParameter,
            final(self).wf(),
    {
        if units < 1 || units > crate::tensor::DIM_MAX {
            return Err(NetError::InvalidParameter);
        }
        proof {
            assert((self.cur_out as int) * (units as int) < 0x100000000000000000000000000000000int)
                by (nonlinear_arith)
                requires
                    0 <= self.cur_out as int && (self.cur_out as int) < 0x10000000000000000int,
                    0 <= units as int && (units as int) < 0x10000000000000000int,
            ;
        }
        let big: u128 = (self.cur_out as u128) * (units as u128);
        if big > (usize::MAX as u128) {
            return Err(NetError::InvalidParameter);
        }
        let d = crate::layers::DenseLayer::new(
            self.cur_out,
            units,
            self.learning_rate,
            &self.template,
        );
        let ghost ls0 = self.layers@;
        let res = self.store_layer(Layer::Dense(d));
        proof {
            assert(res is Ok);
            assert(self.layers@.subrange(0, ls0.len() as int) =~= ls0);
        }
        Ok(())
    }

    /// Append a convolution over the network's two-dimensional input: a
    /// bank of `filters` kernels of the given size with symmetric zero
    /// padding and unit stride. It must be the first layer of a rank-two
    /// network; parameters outside their ranges are refused as invalid, a
    /// stack or geometry that cannot take the layer as a shape mismatch.
    pub fn add_convolution(&mut self, kernel: (usize, usize), filters: usize, padding: usize) -> (r:
        Result<(), NetError>)
        requires
            old(self).wf(),
        ensures
            r is Ok <==> 1 <= kernel.0 <= crate::tensor::DIM_MAX && 1 <= kernel.1
                <= crate::tensor::DIM_MAX && 1 <= filters <= crate::tensor::DIM_MAX && padding
                <= crate::tensor::DIM_MAX && old(self).layers@.len() == 0 && old(
                self,
            ).input_shape@.len() == 2 && kernel.0 <= old(self).input_shape@[0] + 2 * padding
                && kernel.1 <= old(self).input_shape@[1] + 2 * padding && (old(
                self,
            ).input_shape@[0] + 2 * padding - kernel.0 + 1) * (old(self).input_shape@[1] + 2
                * padding - kernel.1 + 1) * filters <= usize::MAX && filters * (kernel.0
                * kernel.1) <= usize::MAX,
            r is Err ==> *final(self) == *old(self),
            r is Err && !(1 <= kernel.0 <= crate::tensor::DIM_MAX && 1 <= kernel.1
                <= crate::tensor::DIM_MAX && 1 <= filters <= crate::tensor::DIM_MAX && padding
                <= crate::tensor::DIM_MAX) ==> r->Err_0 == NetError::InvalidParameter,
            r is Err && 1 <= kernel.0 <= crate::tensor::DIM_MAX && 1 <= kernel.1
                <= crate::tensor::DIM_MAX && 1 <= filters <= crate::tensor::DIM_MAX && padding
                <= crate::tensor::DIM_MAX ==> r->Err_0 == NetError::ShapeMismatch,
            r is Ok ==> old(self).layers@.len() == 0 && old(self).input_shape@.len() == 2,
            r is Ok ==> final(self).cur_out as int == (old(self).input_shape@[0] + 2 * padding
                - kernel.0 + 1) * (old(self).input_shape@[1] + 2 * padding - kernel.1 + 1)
                * filters,
            r is Ok ==> final(self).layers@.len() == 1 && (final(self).layers@.last()
                matches Layer::Conv(c) && c.k_rows == kernel.0 && c.k_cols == kernel.1
                && c.filters == filters && c.padding == padding
                && c.in_rows == old(self).input_shape@[0]
                && c.in_cols == old(self).input_shape@[1] && !c.has_input
                && c.opt_k.kind() == old(self).template.kind()
                && c.learning_rate == old(self).learning_rate)
                && final(self).loss == old(self).loss
                && final(self).input_shape == old(self).input_shape
                && final(self).input_len == old(self).input_len
                && final(self).template == old(self).template
                && final(self).batch_size == old(self).batch_size
                && final(self).learning_rate == old(self).learning_rate,
            final(self).wf(),
    {
        if kernel.0 < 1 || kernel.0 > crate::tensor::DIM_MAX || kernel.1 < 1 || kernel.1
            > crate::tensor::DIM_MAX || filters < 1 || filters > crate::tensor::DIM_MAX || padding
            > crate::tensor::DIM_MAX {
            return Err(NetError::InvalidParameter);
        }
        if self.layers.len() != 0 || self.input_shape.len() != 2 {
            return Err(NetError::ShapeMismatch);
        }
        let rows: usize = self.input_shape[0];
        let cols: usize = self.input_shape[1];
        if kernel.0 > rows + 2 * padding || kernel.1 > cols + 2 * padding {
            return Err(NetError::ShapeMismatch);
        }
        let or_: usize = rows + 2 * padding - kernel.0 + 1;
        let oc_: usize = cols + 2 * padding - kernel.1 + 1;
        proof {
            assert(or_ as int <= 98304 && oc_ as int <= 98304);
            assert((or_ as int) * (oc_ as int) <= 98304 * 98304) by (nonlinear_arith)
                requires
                    0 <= or_ as int <= 98304,
                    0 <= oc_ as int <= 98304,
            ;
            assert(((or_ as int) * (oc_ as int)) * (filters as int) <= (98304 * 98304) * 32768)
                by (nonlinear_arith)
                requires
                    0 <= (or_ as int) * (oc_ as int) <= 98304 * 98304,
                    1 <= filters as int <= 32768,
            ;
            assert((kernel.0 as int) * (kernel.1 as int) <= 32768 * 32768) by (nonlinear_arith)
                requires
                    1 <= kernel.0 as int <= 32768,
                    1 <= kernel.1 as int <= 32768,
            ;
            assert((filters as int) * ((kernel.0 as int) * (kernel.1 as int)) <= 32768 * (32768
                * 32768)) by (nonlinear_arith)
                requires
                    1 <= filters as int <= 32768,
                    0 <= (kernel.0 as int) * (kernel.1 as int) <= 32768 * 32768,
            ;
        }
        let cells_u: u64 = (or_ as u64) * (oc_ as u64);
        let big: u64 = cells_u * (filters as u64);
        let bigk: u64 = (filters as u64) * ((kernel.0 as u64) * (kernel.1 as u64));
        if big > (usize::MAX as u64) || bigk > (usize::MAX as u64) {
            return Err(NetError::ShapeMismatch);
        }
        let c = crate::layers::ConvLayer::new(
            rows,
            cols,
            kernel.0,
            kernel.1,
            filters,
            padding,
            self.learning_rate,
            &self.template,
        );
        let ghost ls0 = self.layers@;
        proof {
            assert(self.cur_out == chain_len(ls0, self.input_len as nat, 0));
            assert(self.cur_out == self.input_len);
            assert(self.input_len == prod(self.input_shape@));
            assert(self.input_shape@.skip(1) =~= seq![self.input_shape@[1]]);
            assert(self.input_shape@.skip(1).skip(1) =~= Seq::<usize>::empty());
            assert(prod(Seq::<usize>::empty()) == 1);
            assert(prod(self.input_shape@.skip(1)) == (self.input_shape@.skip(1)[0] * prod(
                self.input_shape@.skip(1).skip(1),
            )) as nat);
            assert(prod(self.input_shape@) == (self.input_shape@[0] * prod(
                self.input_shape@.skip(1),
            )) as nat);
            assert(self.input_len == rows * cols);
        }
        let res = self.store_layer(Layer::Conv(c));
        proof {
            assert(res is Ok);
            assert(self.layers@.subrange(0, ls0.len() as int) =~= ls0);
        }
        Ok(())
    }

    /// Append an activation layer selected by name.
    pub fn add_activation(&mut self, t: &str) -> (r: Result<(), NetError>)
        requires
            old(self).wf(),
        ensures
            r is Ok <==> t@ == "sigmoid"@ || t@ == "relu"@,
            r is Ok && t@ == "sigmoid"@ ==> final(self).layers@.len() == old(self).layers@.len()
                + 1 && final(self).layers@.last() is Sigmoid,
            r is Ok && t@ == "relu"@ ==> final(self).layers@.len() == old(self).layers@.len() + 1
                && final(self).layers@.last() is Relu,
            r is Ok ==> final(self).cur_out == old(self).cur_out
                && final(self).layers@.subrange(0, old(self).layers@.len() as int)
                == old(self).layers@ && final(self).loss == old(self).loss
                && final(self).template == old(self).template
                && final(self).input_shape == old(self).input_shape
                && final(self).input_len == old(self).input_len
                && final(self).batch_size == old(self).batch_size
                && final(self).learning_rate == old(self).learning_rate,
            r is Err ==> *final(self) == *old(self) && r->Err_0 == NetError::UnknownVariant,
            final(self).wf(),
    {
        proof {
            reveal_strlit("sigmoid");
            reveal_strlit("relu");
        }
        let name = String::from_str(t);
        let ghost ls0 = self.layers@;
        if name.eq(&String::from_str("sigmoid")) {
            let res = self.store_layer(Layer::Sigmoid(crate::layers::SigmoidLayer::new()));
            proof {
                assert(t@ == "sigmoid"@);
                assert("sigmoid"@.len() == 7);
                assert("relu"@.len() == 4);
                assert(t@ != "relu"@);
                assert(res is Ok);
                assert(self.layers@.subrange(0, ls0.len() as int) =~= ls0);
            }
            Ok(())
        } else if name.eq(&String::from_str("relu")) {
            let res = self.store_layer(Layer::Relu(crate::layers::ReluLayer::new()));
            proof {
                assert(res is Ok);
                assert(self.layers@.subrange(0, ls0.len() as int) =~= ls0);
            }
            Ok(())
        } else {
            Err(NetError::UnknownVariant)
        }
    }

    /// Append a flatten layer: the identity on the flat activation data.
    pub fn add_flatten(&mut self)
        requires
            old(self).wf(),
        ensures
            final(self).layers@.len() == old(self).layers@.len() + 1,
            final(self).layers@.last() is Flatten,
            final(self).cur_out == old(self).cur_out,
            final(self).layers@.subrange(0, old(self).layers@.len() as int) == old(self).layers@,
            final(self).loss == old(self).loss,
            final(self).template == old(self).template,
            final(self).input_shape == old(self).input_shape,
            final(self).input_len == old(self).input_len,
            final(self).batch_size == old(self).batch_size,
            final(self).learning_rate == old(self).learning_rate,
            final(self).wf(),
    {
        let ghost ls0 = self.layers@;
        let res = self.store_layer(Layer::Flatten(crate::layers::FlattenLayer::new()));
        proof {
            assert(res is Ok);
            assert(self.layers@.subrange(0, ls0.len() as int) =~= ls0);
        }
    }

    fn predict_inner(&mut self, x: Vec<i64>) -> (r: Vec<i64>)
        requires
            old(self).wf(),
            x@.len() == old(self).input_len,
            all_fx_ok(x@),
        ensures
            r@ == net_fwd_pure(old(self).layers@, x@, old(self).layers@.len()),
            r@.len() == old(self).cur_out,
            all_fx_ok(r@),
            final(self).wf(),
            net_fwd_post(old(self).layers@, final(self).layers@, x@),
            bwd_chain_ok(final(self).layers@, r@.len() as nat, old(self).layers@.len() - 1),
            final(self).cur_out == old(self).cur_out,
            final(self).loss == old(self).loss,
            final(self).input_len == old(self).input_len,
            final(self).input_shape == old(self).input_shape,
            final(self).template == old(self).template,
            final(self).learning_rate == old(self).learning_rate,
            final(self).batch_size == old(self).batch_size,
    {
        let ghost ls0 = self.layers@;
        let ghost n0 = self.input_len as nat;
        let out = forward_layers(&mut self.layers, x);
        proof {
            assert forall|t: int| 0 <= t < ls0.len() implies dims_eq(
                #[trigger] ls0[t],
                self.layers@[t],
            ) by {
                assert(Layer::params_eq(ls0[t], self.layers@[t]));
            }
            lemma_net_dims_chain_ok(ls0, self.layers@, n0);
        }
        out
    }

    /// Run the input forward through every layer in order, with no
    /// learning: the output is a function of the parameters and the input
    /// alone, and no parameter or optimizer state moves.
    pub fn predict(&mut self, x: &Tensor) -> (r: Result<Vec<i64>, NetError>)
        requires
            old(self).wf(),
            all_fx_ok(x.data@),
        ensures
            r is Ok <==> x.shape@ == old(self).input_shape@
                && x.data@.len() == old(self).input_len,
            r is Err ==> *final(self) == *old(self) && r->Err_0 == NetError::ShapeMismatch,
            r is Ok ==> r->Ok_0@ == net_fwd_pure(old(self).layers@, x.data@, old(self).layers@.len())
                && r->Ok_0@.len() == old(self).cur_out && all_fx_ok(r->Ok_0@) && net_fwd_post(
                old(self).layers@,
                final(self).layers@,
                x.data@,
            ),
            final(self).wf(),
            final(self).cur_out == old(self).cur_out,
            final(self).loss == old(self).loss,
            final(self).input_len == old(self).input_len,
            final(self).input_shape == old(self).input_shape,
    {
        if !shapes_eq(&x.shape, &self.input_shape) {
            return Err(NetError::ShapeMismatch);
        }
        if x.data.len() != self.input_len {
            return Err(NetError::ShapeMismatch);
        }
        let n: usize = x.data.len();
        let mut copy: Vec<i64> = Vec::new();
        let mut i: usize = 0;
        while i < n
            invariant
                i <= n,
                n == x.data@.len(),
                copy@.len() == i,
                forall|j: int| 0 <= j < i ==> copy@[j] == x.data@[j],
            decreases n - i,
        {
            copy.push(x.data[i]);
            i = i + 1;
        }
        proof {
            assert(copy@ =~= x.data@);
        }
        Ok(self.predict_inner(copy))
    }

    /// Prediction over a rank-one input vector.
    pub fn predict1d(&mut self, x: Vec<i64>) -> (r: Result<Vec<i64>, NetError>)
        requires
            old(self).wf(),
            all_fx_ok(x@),
        ensures
            r is Ok <==> old(self).input_shape@.len() == 1 && x@.len() == old(self).input_len,
            r is Err ==> *final(self) == *old(self) && r->Err_0 == NetError::ShapeMismatch,
            r is Ok ==> r->Ok_0@ == net_fwd_pure(old(self).layers@, x@, old(self).layers@.len())
                && r->Ok_0@.len() == old(self).cur_out && all_fx_ok(r->Ok_0@) && net_fwd_post(
                old(self).layers@,
                final(self).layers@,
                x@,
            ),
            final(self).wf(),
            final(self).cur_out == old(self).cur_out,
            final(self).loss == old(self).loss,
            final(self).input_len == old(self).input_len,
            final(self).input_shape == old(self).input_shape,
    {
        if self.input_shape.len() != 1 || x.len() != self.input_len {
            return Err(NetError::ShapeMismatch);
        }
        Ok(self.predict_inner(x))
    }

    fn train_inner(&mut self, x: Vec<i64>, target: &Vec<i64>)
        requires
            old(self).wf(),
            x@.len() == old(self).input_len,
            target@.len() == old(self).cur_out,
            all_fx_ok(x@),
            all_fx_ok(target@),
        ensures
            final(self).wf(),
            net_train_post(old(self).layers@, final(self).layers@, x@, target@, old(self).loss),
            final(self).cur_out == old(self).cur_out,
            final(self).loss == old(self).loss,
            final(self).input_len == old(self).input_len,
            final(self).input_shape == old(self).input_shape,
            final(self).template == old(self).template,
            final(self).learning_rate == old(self).learning_rate,
            final(self).batch_size == old(self).batch_size,
    {
        let ghost ls0 = self.layers@;
        let ghost n0 = self.input_len as nat;
        let n: usize = self.layers.len();
        let out: Vec<i64> = forward_layers(&mut self.layers, x);
        let ghost lsf = self.layers@;
        let is_bce: bool = match self.loss {
            Loss::Bce => true,
            _ => false,
        };
        let last_sigmoid: bool = if n >= 1 {
            match &self.layers[n - 1] {
                Layer::Sigmoid(_) => true,
                _ => false,
            }
        } else {
            false
        };
        proof {
            if n >= 1 {
                assert(Layer::fwd_post(ls0[n - 1], lsf[n - 1], net_fwd_pure(ls0, x@, (n - 1) as nat)));
                assert((ls0[n - 1] is Sigmoid) == (lsf[n - 1] is Sigmoid));
            }
            assert((is_bce && last_sigmoid) == fused(ls0, self.loss));
        }
        if is_bce && last_sigmoid {
            let g: Vec<i64> = vsub(&out, target);
            proof {
                assert(g@ == train_grad(ls0, x@, target@, self.loss));
                assert(bwd_chain_ok(lsf, out@.len() as nat, n - 1));
                assert(lsf[n - 1].back_len(out@.len() as nat) == out@.len());
                assert(bwd_chain_ok(lsf, g@.len() as nat, n - 2));
            }
            let ghost lsf2 = self.layers@;
            backward_layers(&mut self.layers, &g, n - 1);
            proof {
                assert(net_bwd_post(lsf, self.layers@, g@, n - 2));
                assert(train_hi(ls0, self.loss) == n - 2);
                assert(net_fwd_post(ls0, lsf, x@));
                assert(net_train_post(ls0, self.layers@, x@, target@, self.loss));
            }
        } else {
            let g: Vec<i64> = self.loss.backward(&out, target);
            proof {
                assert(g@ == train_grad(ls0, x@, target@, self.loss));
            }
            backward_layers(&mut self.layers, &g, n);
            proof {
                assert(net_bwd_post(lsf, self.layers@, g@, n - 1));
                assert(train_hi(ls0, self.loss) == n - 1);
                assert(net_fwd_post(ls0, lsf, x@));
                assert(net_train_post(ls0, self.layers@, x@, target@, self.loss));
            }
        }
        proof {
            assert forall|t: int| 0 <= t < ls0.len() implies dims_eq(
                #[trigger] ls0[t],
                self.layers@[t],
            ) by {
                assert(Layer::params_eq(ls0[t], lsf[t]));
                assert(dims_eq(lsf[t], self.layers@[t]));
            }
            lemma_net_dims_chain_ok(ls0, self.layers@, n0);
        }
    }

    /// One training step: forward through every layer, then the loss
    /// gradient driven backward in reverse layer order, updating each
    /// layer's parameters. With a cross-entropy loss behind a final sigmoid
    /// the fused from-logits gradient is used and that sigmoid is skipped.
    pub fn train(&mut self, x: &Tensor, target: Vec<i64>) -> (r: Result<(), NetError>)
        requires
            old(self).wf(),
            all_fx_ok(x.data@),
            all_fx_ok(target@),
        ensures
            r is Ok <==> x.shape@ == old(self).input_shape@ && x.data@.len() == old(
                self,
            ).input_len && target@.len() == old(self).cur_out,
            r is Err ==> *final(self) == *old(self) && r->Err_0 == NetError::ShapeMismatch,
            r is Ok ==> net_train_post(
                old(self).layers@,
                final(self).layers@,
                x.data@,
                target@,
                old(self).loss,
            ),
            final(self).wf(),
            final(self).cur_out == old(self).cur_out,
            final(self).loss == old(self).loss,
            final(self).input_len == old(self).input_len,
            final(self).input_shape == old(self).input_shape,
    {
        if !shapes_eq(&x.shape, &self.input_shape) {
            return Err(NetError::ShapeMismatch);
        }
        if x.data.len() != self.input_len || target.len() != self.cur_out {
            return Err(NetError::ShapeMismatch);
        }
        let n: usize = x.data.len();
        let mut copy: Vec<i64> = Vec::new();
        let mut i: usize = 0;
        while i < n
            invariant
                i <= n,
                n == x.data@.len(),
                copy@.len() == i,
                forall|j: int| 0 <= j < i ==> copy@[j] == x.data@[j],
            decreases n - i,
        {
            copy.push(x.data[i]);
            i = i + 1;
        }
        proof {
            assert(copy@ =~= x.data@);
        }
        self.train_inner(copy, &target);
        Ok(())
    }

    /// A training step over a rank-one input.
    pub fn train1d(&mut self, x: Vec<i64>, target: Vec<i64>) -> (r: Result<(), NetError>)
        requires
            old(self).wf(),
            all_fx_ok(x@),
            all_fx_ok(target@),
        ensures
            r is Ok <==> old(self).input_shape@.len() == 1 && x@.len() == old(self).input_len
                && target@.len() == old(self).cur_out,
            r is Err ==> *final(self) == *old(self) && r->Err_0 == NetError::ShapeMismatch,
            r is Ok ==> net_train_post(
                old(self).layers@,
                final(self).layers@,
                x@,
                target@,
                old(self).loss,
            ),
            final(self).wf(),
            final(self).cur_out == old(self).cur_out,
            final(self).loss == old(self).loss,
            final(self).input_len == old(self).input_len,
            final(self).input_shape == old(self).input_shape,
    {
        if self.input_shape.len() != 1 || x.len() != self.input_len || target.len()
            != self.cur_out {
            return Err(NetError::ShapeMismatch);
        }
        self.train_inner(x, &target);
        Ok(())
    }

    /// A training step over a rank-two input.
    pub fn train2d(&mut self, x: &Tensor, target: Vec<i64>) -> (r: Result<(), NetError>)
        requires
            old(self).wf(),
            all_fx_ok(x.data@),
            all_fx_ok(target@),
        ensures
            r is Ok <==> x.shape@ == old(self).input_shape@ && x.data@.len() == old(
                self,
            ).input_len && target@.len() == old(self).cur_out && x.shape@.len() == 2,
            r is Ok ==> net_train_post(
                old(self).layers@,
                final(self).layers@,
                x.data@,
                target@,
                old(self).loss,
            ),
            final(self).wf(),
            final(self).cur_out == old(self).cur_out,
            final(self).loss == old(self).loss,
            final(self).input_len == old(self).input_len,
            final(self).input_shape == old(self).input_shape,
    {
        if x.shape.len() != 2 {
            return Err(NetError::ShapeMismatch);
        }
        self.train(x, target)
    }

    /// Run the input forward and score the output against the target with
    /// the configured loss, averaged over the output entries: the result is
    /// exactly the mean of the per-entry scores of the network's output.
    /// No parameter moves. The score of the squared-error and cross-entropy
    /// losses is non-negative for unit-interval targets.
    pub fn loss_from_input(&mut self, x: Vec<i64>, target: Vec<i64>) -> (r: Result<
        i64,
        NetError,
    >)
        requires
            old(self).wf(),
            all_fx_ok(x@),
            all_fx_ok(target@),
        ensures
            r is Ok <==> x@.len() == old(self).input_len && target@.len() == old(self).cur_out,
            r is Err ==> *final(self) == *old(self) && r->Err_0 == NetError::ShapeMismatch,
            r is Ok ==> r->Ok_0 == fx_mean_s(
                loss_score_s(
                    old(self).loss,
                    net_fwd_pure(old(self).layers@, x@, old(self).layers@.len()),
                    target@,
                ),
            ),
            r is Ok ==> net_fwd_post(old(self).layers@, final(self).layers@, x@),
            r is Ok ==> fx_ok(r->Ok_0 as int),
            r is Ok && old(self).loss is Mse ==> r->Ok_0 >= 0,
            r is Ok && old(self).loss is Bce && crate::losses::all_unit(target@) ==> r->Ok_0 >= 0,
            final(self).wf(),
            final(self).cur_out == old(self).cur_out,
            final(self).loss == old(self).loss,
            final(self).input_len == old(self).input_len,
            final(self).input_shape == old(self).input_shape,
            final(self).template == old(self).template,
            final(self).learning_rate == old(self).learning_rate,
    {
        if x.len() != self.input_len || target.len() != self.cur_out {
            return Err(NetError::ShapeMismatch);
        }
        let out: Vec<i64> = self.predict_inner(x);
        let scores: Vec<i64> = self.loss.forward(&out, &target);
        Ok(fx_mean(&scores))
    }

    /// Score an already computed prediction against a target: exactly the
    /// mean of the per-entry scores under the configured loss.
    pub fn loss_from_prediction(&self, pred: Vec<i64>, target: Vec<i64>) -> (r: Result<
        i64,
        NetError,
    >)
        requires
            all_fx_ok(pred@),
            all_fx_ok(target@),
        ensures
            r is Ok <==> pred@.len() == target@.len() && pred@.len() >= 1,
            r is Ok ==> r->Ok_0 == fx_mean_s(loss_score_s(self.loss, pred@, target@)),
            r is Ok ==> fx_ok(r->Ok_0 as int),
    {
        if pred.len() != target.len() || pred.len() < 1 {
            return Err(NetError::ShapeMismatch);
        }
        let scores: Vec<i64> = self.loss.forward(&pred, &target);
        Ok(fx_mean(&scores))
    }

    /// Prediction over a rank-two input tensor.
    pub fn predict2d(&mut self, x: &Tensor) -> (r: Result<Vec<i64>, NetError>)
        requires
            old(self).wf(),
            all_fx_ok(x.data@),
        ensures
            r is Ok <==> x.shape@ == old(self).input_shape@
                && x.data@.len() == old(self).input_len && x.shape@.len() == 2,
            r is Err ==> *final(self) == *old(self) && r->Err_0 == NetError::ShapeMismatch,
            r is Ok ==> r->Ok_0@ == net_fwd_pure(old(self).layers@, x.data@, old(self).layers@.len())
                && r->Ok_0@.len() == old(self).cur_out && all_fx_ok(r->Ok_0@),
            final(self).wf(),
            final(self).cur_out == old(self).cur_out,
            final(self).loss == old(self).loss,
            final(self).input_len == old(self).input_len,
            final(self).input_shape == old(self).input_shape,
    {
        if x.shape.len() != 2 {
            return Err(NetError::ShapeMismatch);
        }
        self.predict(x)
    }
}

} // verus!