use vstd::prelude::*;
use crate::fx::{
    fx_ok, fx_add_s, fx_sub_s, fx_mul_s, sigmoid_s, fx_add, fx_sub, fx_mul, sigmoid, SCALE,
    FX_HALF,
};
use crate::vecops::{
    all_fx_ok, zeros, dense_out_s, dense_down_s, dot_col_s, outer_s, descend_s, matvec, matvec_t,
    outer, descend, lemma_dot_row_ok, lemma_dot_col_ok,
};
use crate::optimizers::{Optimizer, opt_step_post};

verus! {

/// Layers transform an activation vector on the way forward and a gradient
/// on the way back. A layer caches on forward exactly what its backward
/// needs: dense layers the last input, activations the last output.

/// The sigmoid applied to every entry.
pub open spec fn sigmap_s(x: Seq<i64>) -> Seq<i64> {
    Seq::new(x.len(), |i: int| sigmoid_s(x[i] as int) as i64)
}

/// The sigmoid backward pass: the upstream gradient scaled elementwise by
/// out * (1 - out), computed from the cached output.
pub open spec fn sig_back_s(out: Seq<i64>, fb: Seq<i64>) -> Seq<i64> {
    Seq::new(
        out.len(),
        |i: int| fx_mul_s(
            fx_mul_s(out[i] as int, fx_sub_s(SCALE as int, out[i] as int)),
            fb[i] as int,
        ) as i64,
    )
}

/// The rectifier applied to every entry.
pub open spec fn relumap_s(x: Seq<i64>) -> Seq<i64> {
    Seq::new(x.len(), |i: int| if x[i] > 0 { x[i] } else { 0i64 })
}

/// The rectifier backward pass: the gradient passes where the cached output
/// is positive and is zero elsewhere.
pub open spec fn relu_back_s(out: Seq<i64>, fb: Seq<i64>) -> Seq<i64> {
    Seq::new(out.len(), |i: int| if out[i] > 0 { fb[i] } else { 0i64 })
}

/// The sigmoid activation layer. It owns no parameters; forward caches the
/// post-activation output for the backward pass.
pub struct SigmoidLayer {
    pub output: Vec<i64>,
    pub ran: bool,
}

impl SigmoidLayer {
    pub open spec fn wf(&self) -> bool {
        all_fx_ok(self.output@)
    }

    pub fn new() -> (r: Self)
        ensures
            r.wf(),
            !r.ran,
            r.output@.len() == 0,
    {
        SigmoidLayer { output: Vec::new(), ran: false }
    }

    pub fn get_type(&self) -> (r: String)
        ensures
            r@ == "Sigmoid Layer"@,
    {
        String::from_str("Sigmoid Layer")
    }

    /// Apply the sigmoid entrywise; every output lies strictly inside (0,1)
    /// and a zero input entry maps to exactly one half.
    pub fn forward(&mut self, x: &Vec<i64>) -> (r: Vec<i64>)
        requires
            all_fx_ok(x@),
        ensures
            r@ == sigmap_s(x@),
            r@.len() == x@.len(),
            all_fx_ok(r@),
            forall|i: int| 0 <= i < r@.len() ==> 1 <= #[trigger] r@[i] <= SCALE - 1,
            forall|i: int| 0 <= i < r@.len() && x@[i] == 0 ==> r@[i] == FX_HALF,
            final(self).output@ == r@,
            final(self).ran,
            final(self).wf(),
    {
        let n: usize = x.len();
        let mut out: Vec<i64> = Vec::new();
        let mut i: usize = 0;
        while i < n
            invariant
                i <= n,
                n == x@.len(),
                all_fx_ok(x@),
                out@.len() == i,
                forall|j: int| 0 <= j < i ==> out@[j] == sigmoid_s(x@[j] as int) as i64,
                forall|j: int| 0 <= j < i ==> 1 <= #[trigger] out@[j] <= SCALE - 1,
                forall|j: int| 0 <= j < i && x@[j] == 0 ==> out@[j] == FX_HALF,
                all_fx_ok(out@),
            decreases n - i,
        {
            out.push(sigmoid(x[i]));
            i = i + 1;
        }
        proof {
            assert(out@ =~= sigmap_s(x@));
        }
        let mut cache: Vec<i64> = Vec::new();
        let mut k: usize = 0;
        while k < n
            invariant
                k <= n,
                n == out@.len(),
                cache@.len() == k,
                forall|j: int| 0 <= j < k ==> cache@[j] == out@[j],
            decreases n - k,
        {
            cache.push(out[k]);
            k = k + 1;
        }
        proof {
            assert(cache@ =~= out@);
        }
        self.output = cache;
        self.ran = true;
        out
    }

    /// Scale the upstream gradient by the local derivative out * (1 - out).
    pub fn backward(&mut self, fb: &Vec<i64>) -> (r: Vec<i64>)
        requires
            old(self).wf(),
            old(self).ran,
            fb@.len() == old(self).output@.len(),
            all_fx_ok(fb@),
        ensures
            r@ == sig_back_s(old(self).output@, fb@),
            r@.len() == fb@.len(),
            all_fx_ok(r@),
            *final(self) == *old(self),
    {
        let n: usize = self.output.len();
        let mut r: Vec<i64> = Vec::new();
        let mut i: usize = 0;
        while i < n
            invariant
                i <= n,
                n == self.output@.len() == fb@.len(),
                *self == *old(self),
                all_fx_ok(self.output@),
                all_fx_ok(fb@),
                r@.len() == i,
                forall|j: int| 0 <= j < i ==> r@[j] == fx_mul_s(
                    fx_mul_s(self.output@[j] as int, fx_sub_s(SCALE as int, self.output@[j] as int)),
                    fb@[j] as int,
                ) as i64,
                all_fx_ok(r@),
            decreases n - i,
        {
            let d: i64 = fx_mul(self.output[i], fx_sub(SCALE, self.output[i]));
            r.push(fx_mul(d, fb[i]));
            i = i + 1;
        }
        proof {
            assert(r@ =~= sig_back_s(old(self).output@, fb@));
        }
        r
    }
}

/// The rectifier activation layer; forward caches the output.
pub struct ReluLayer {
    pub output: Vec<i64>,
    pub ran: bool,
}

impl ReluLayer {
    pub open spec fn wf(&self) -> bool {
        all_fx_ok(self.output@)
    }

    pub fn new() -> (r: Self)
        ensures
            r.wf(),
            !r.ran,
            r.output@.len() == 0,
    {
        ReluLayer { output: Vec::new(), ran: false }
    }

    pub fn forward(&mut self, x: &Vec<i64>) -> (r: Vec<i64>)
        requires
            all_fx_ok(x@),
        ensures
            r@ == relumap_s(x@),
            r@.len() == x@.len(),
            all_fx_ok(r@),
            final(self).output@ == r@,
            final(self).ran,
            final(self).wf(),
    {
        let n: usize = x.len();
        let mut out: Vec<i64> = Vec::new();
        let mut cache: Vec<i64> = Vec::new();
        let mut i: usize = 0;
        while i < n
            invariant
                i <= n,
                n == x@.len(),
                all_fx_ok(x@),
                out@.len() == i,
                cache@.len() == i,
                forall|j: int| 0 <= j < i ==> out@[j] == (if x@[j] > 0 { x@[j] } else { 0i64 }),
                forall|j: int| 0 <= j < i ==> cache@[j] == out@[j],
                all_fx_ok(out@),
            decreases n - i,
        {
            let v: i64 = if x[i] > 0 {
                x[i]
            } else {
                0
            };
            out.push(v);
            cache.push(v);
            i = i + 1;
        }
        proof {
            assert(out@ =~= relumap_s(x@));
            assert(cache@ =~= out@);
        }
        self.output = cache;
        self.ran = true;
        out
    }

    pub fn backward(&mut self, fb: &Vec<i64>) -> (r: Vec<i64>)
        requires
            old(self).wf(),
            old(self).ran,
            fb@.len() == old(self).output@.len(),
            all_fx_ok(fb@),
        ensures
            r@ == relu_back_s(old(self).output@, fb@),
            r@.len() == fb@.len(),
            all_fx_ok(r@),
            *final(self) == *old(self),
    {
        let n: usize = self.output.len();
        let mut r: Vec<i64> = Vec::new();
        let mut i: usize = 0;
        while i < n
            invariant
                i <= n,
                n == self.output@.len() == fb@.len(),
                *self == *old(self),
                all_fx_ok(fb@),
                r@.len() == i,
                forall|j: int| 0 <= j < i ==> r@[j] == (if self.output@[j] > 0 { fb@[j] } else { 0i64 }),
                all_fx_ok(r@),
            decreases n - i,
        {
            let v: i64 = if self.output[i] > 0 {
                fb[i]
            } else {
                0
            };
            r.push(v);
            i = i + 1;
        }
        proof {
            assert(r@ =~= relu_back_s(old(self).output@, fb@));
        }
        r
    }
}

/// The flatten layer: the identity on the flat activation vector, recording
/// only the length it saw so the gradient can be checked against it.
pub struct FlattenLayer {
    pub seen: usize,
    pub ran: bool,
}

impl FlattenLayer {
    pub fn new() -> (r: Self)
        ensures
            !r.ran,
    {
        FlattenLayer { seen: 0, ran: false }
    }

    pub fn forward(&mut self, x: &Vec<i64>) -> (r: Vec<i64>)
        requires
            all_fx_ok(x@),
        ensures
            r@ == x@,
            all_fx_ok(r@),
            final(self).seen == x@.len(),
            final(self).ran,
    {
        let n: usize = x.len();
        let mut out: Vec<i64> = Vec::new();
        let mut i: usize = 0;
        while i < n
            invariant
                i <= n,
                n == x@.len(),
                out@.len() == i,
                forall|j: int| 0 <= j < i ==> out@[j] == x@[j],
            decreases n - i,
        {
            out.push(x[i]);
            i = i + 1;
        }
        proof {
            assert(out@ =~= x@);
        }
        self.seen = n;
        self.ran = true;
        out
    }

    pub fn backward(&mut self, fb: &Vec<i64>) -> (r: Vec<i64>)
        requires
            old(self).ran,
            fb@.len() == old(self).seen,
            all_fx_ok(fb@),
        ensures
            r@ == fb@,
            all_fx_ok(r@),
            *final(self) == *old(self),
    {
        let n: usize = fb.len();
        let mut out: Vec<i64> = Vec::new();
        let mut i: usize = 0;
        while i < n
            invariant
                i <= n,
                n == fb@.len(),
                out@.len() == i,
                forall|j: int| 0 <= j < i ==> out@[j] == fb@[j],
            decreases n - i,
        {
            out.push(fb[i]);
            i = i + 1;
        }
        proof {
            assert(out@ =~= fb@);
        }
        out
    }
}

/// The fully connected layer: out = weights . x + bias. It owns its
/// parameters, one optimizer instance per parameter tensor, and caches the
/// last input for the backward pass.
pub struct DenseLayer {
    pub in_dim: usize,
    pub out_dim: usize,
    pub weights: Vec<i64>,
    pub bias: Vec<i64>,
    pub opt_w: Optimizer,
    pub opt_b: Optimizer,
    pub learning_rate: i64,
    pub last_input: Vec<i64>,
    pub has_input: bool,
}

impl DenseLayer {
    pub open spec fn wf(&self) -> bool {
        &&& self.in_dim >= 1
        &&& self.out_dim >= 1
        &&& self.weights@.len() == self.out_dim * self.in_dim
        &&& self.bias@.len() == self.out_dim
        &&& all_fx_ok(self.weights@)
        &&& all_fx_ok(self.bias@)
        &&& self.opt_w.wf()
        &&& self.opt_b.wf()
        &&& fx_ok(self.learning_rate as int)
        &&& all_fx_ok(self.last_input@)
        &&& (self.has_input ==> self.last_input@.len() == self.in_dim)
    }

    /// A fresh dense layer: weights drawn uniformly from [-1/2, 1/2), a zero
    /// bias, and fresh zero-state optimizers cloned from the template.
    pub fn new(in_dim: usize, out_dim: usize, learning_rate: i64, template: &Optimizer) -> (r: Self)
        requires
            1 <= in_dim,
            1 <= out_dim,
            in_dim * out_dim <= usize::MAX,
            fx_ok(learning_rate as int),
        ensures
            r.wf(),
            r.in_dim == in_dim,
            r.out_dim == out_dim,
            r.learning_rate == learning_rate,
            !r.has_input,
            r.opt_w.kind() == template.kind(),
            r.opt_b.kind() == template.kind(),
    {
        proof {
            assert((out_dim as int) * (in_dim as int) == (in_dim as int) * (out_dim as int))
                by (nonlinear_arith);
        }
        let n: usize = out_dim * in_dim;
        let mut w: Vec<i64> = Vec::new();
        let mut i: usize = 0;
        while i < n
            invariant
                i <= n,
                w@.len() == i,
                all_fx_ok(w@),
            decreases n - i,
        {
            let draw: u32 = crate::rng::rand_u32();
            w.push((draw as i64) - FX_HALF);
            i = i + 1;
        }
        DenseLayer {
            in_dim,
            out_dim,
            weights: w,
            bias: zeros(out_dim),
            opt_w: template.fresh_like(),
            opt_b: template.fresh_like(),
            learning_rate,
            last_input: Vec::new(),
            has_input: false,
        }
    }

    /// The affine forward map; caches the input for backward.
    pub fn forward(&mut self, x: &Vec<i64>) -> (r: Vec<i64>)
        requires
            old(self).wf(),
            x@.len() == old(self).in_dim,
            all_fx_ok(x@),
        ensures
            r@ == dense_out_s(old(self).weights@, old(self).bias@, x@, old(self).in_dim as nat),
            r@.len() == old(self).out_dim,
            all_fx_ok(r@),
            final(self).wf(),
            final(self).in_dim == old(self).in_dim,
            final(self).out_dim == old(self).out_dim,
            final(self).weights == old(self).weights,
            final(self).bias == old(self).bias,
            final(self).opt_w == old(self).opt_w,
            final(self).opt_b == old(self).opt_b,
            final(self).learning_rate == old(self).learning_rate,
            final(self).last_input@ == x@,
            final(self).has_input,
    {
        let r: Vec<i64> = matvec(&self.weights, &self.bias, x);
        let n: usize = x.len();
        let mut cache: Vec<i64> = Vec::new();
        let mut i: usize = 0;
        while i < n
            invariant
                i <= n,
                n == x@.len(),
                cache@.len() == i,
                forall|j: int| 0 <= j < i ==> cache@[j] == x@[j],
            decreases n - i,
        {
            cache.push(x[i]);
            i = i + 1;
        }
        proof {
            assert(cache@ =~= x@);
        }
        self.last_input = cache;
        self.has_input = true;
        r
    }

    /// The backward map: the downstream gradient uses the pre-update
    /// weights; the weight gradient is the outer product of the upstream
    /// gradient with the cached input, the bias gradient is the upstream
    /// gradient, and both parameter tensors descend along their optimizer's
    /// adjusted step scaled by the learning rate.
    pub fn backward(&mut self, g: &Vec<i64>) -> (r: Vec<i64>)
        requires
            old(self).wf(),
            old(self).has_input,
            g@.len() == old(self).out_dim,
            all_fx_ok(g@),
        ensures
            r@ == dense_down_s(old(self).weights@, g@, old(self).in_dim as nat),
            r@.len() == old(self).in_dim,
            all_fx_ok(r@),
            final(self).wf(),
            final(self).in_dim == old(self).in_dim,
            final(self).out_dim == old(self).out_dim,
            final(self).learning_rate == old(self).learning_rate,
            final(self).last_input == old(self).last_input,
            final(self).has_input,
            exists|sw: Seq<i64>|
                #[trigger] opt_step_post(
                    old(self).opt_w,
                    final(self).opt_w,
                    outer_s(g@, old(self).last_input@),
                    sw,
                ) && final(self).weights@ == descend_s(
                    old(self).weights@,
                    old(self).learning_rate as int,
                    sw,
                ),
            exists|sb: Seq<i64>|
                #[trigger] opt_step_post(old(self).opt_b, final(self).opt_b, g@, sb)
                    && final(self).bias@ == descend_s(
                    old(self).bias@,
                    old(self).learning_rate as int,
                    sb,
                ),
    {
        let down: Vec<i64> = matvec_t(&self.weights, g, self.in_dim);
        let wlen: usize = self.weights.len();
        proof {
            assert((g@.len() as int) * (self.last_input@.len() as int) == (self.out_dim as int)
                * (self.in_dim as int)) by (nonlinear_arith)
                requires
                    g@.len() == self.out_dim,
                    self.last_input@.len() == self.in_dim,
            ;
            assert(wlen == self.out_dim * self.in_dim);
        }
        let dw: Vec<i64> = outer(g, &self.last_input);
        let step_w: Vec<i64> = self.opt_w.optimize(&dw);
        descend(&mut self.weights, self.learning_rate, &step_w);
        let step_b: Vec<i64> = self.opt_b.optimize(g);
        descend(&mut self.bias, self.learning_rate, &step_b);
        self.has_input = true;
        down
    }
}

/// One entry of the window a convolution reads at output position (i, j):
/// the input value under kernel cell t (row-major over kh by kw), or zero
/// where the padded window hangs over the input's edge.
pub open spec fn conv_patch_s(
    x: Seq<i64>,
    ir: int,
    ic: int,
    kw: int,
    p: int,
    i: int,
    j: int,
    t: int,
) -> i64 {
    let r = i + t / kw - p;
    let c = j + t % kw - p;
    if 0 <= r < ir && 0 <= c < ic {
        x[r * ic + c]
    } else {
        0i64
    }
}

/// The saturating dot product of kernel row f with the window at (i, j),
/// accumulated over the first t kernel cells.
pub open spec fn conv_cell_s(
    w: Seq<i64>,
    x: Seq<i64>,
    ir: int,
    ic: int,
    kw: int,
    p: int,
    f: int,
    kk: int,
    i: int,
    j: int,
    t: nat,
) -> int
    decreases t,
{
    if t == 0 {
        0
    } else {
        fx_add_s(
            conv_cell_s(w, x, ir, ic, kw, p, f, kk, i, j, (t - 1) as nat),
            fx_mul_s(
                w[f * kk + t - 1] as int,
                conv_patch_s(x, ir, ic, kw, p, i, j, t - 1) as int,
            ),
        )
    }
}

pub proof fn lemma_conv_cell_ok(
    w: Seq<i64>,
    x: Seq<i64>,
    ir: int,
    ic: int,
    kw: int,
    p: int,
    f: int,
    kk: int,
    i: int,
    j: int,
    t: nat,
)
    ensures
        fx_ok(conv_cell_s(w, x, ir, ic, kw, p, f, kk, i, j, t)),
    decreases t,
{
    if t != 0 {
        lemma_conv_cell_ok(w, x, ir, ic, kw, p, f, kk, i, j, (t - 1) as nat);
    }
}

/// The gradient of the loss with respect to kernel entry v = f * kk + t:
/// the upstream gradient at each output cell times the window entry that
/// kernel cell saw there, summed over the first m output cells.
pub open spec fn conv_dk_s(
    x: Seq<i64>,
    g: Seq<i64>,
    ir: int,
    ic: int,
    kw: int,
    p: int,
    oc: int,
    nf: int,
    f: int,
    t: int,
    m: nat,
) -> int
    decreases m,
{
    if m == 0 {
        0
    } else {
        fx_add_s(
            conv_dk_s(x, g, ir, ic, kw, p, oc, nf, f, t, (m - 1) as nat),
            fx_mul_s(
                g[(m - 1) * nf + f] as int,
                conv_patch_s(x, ir, ic, kw, p, (m - 1) / oc, (m - 1) % oc, t) as int,
            ),
        )
    }
}

/// The downstream gradient at input position u, from the first t kernel
/// cells: each kernel cell contributes where its window covered u, scaled
/// by every filter's upstream gradient at the covering output cell.
pub open spec fn conv_dx_s(
    w: Seq<i64>,
    g: Seq<i64>,
    kw: int,
    kk: int,
    p: int,
    or_: int,
    oc: int,
    nf: int,
    r: int,
    c: int,
    t: nat,
) -> int
    decreases t,
{
    if t == 0 {
        0
    } else {
        let i = r + p - ((t - 1) / kw);
        let j = c + p - ((t - 1) % kw);
        let term = if 0 <= i < or_ && 0 <= j < oc {
            dot_col_s(w, g.subrange((i * oc + j) * nf, (i * oc + j) * nf + nf), kk as nat, t - 1, nf as nat)
        } else {
            0
        };
        fx_add_s(conv_dx_s(w, g, kw, kk, p, or_, oc, nf, r, c, (t - 1) as nat), term)
    }
}

/// The two-dimensional convolution layer: a bank of kernels slid over a
/// single-channel input with unit stride and symmetric zero padding. It
/// owns the kernel tensor, one optimizer instance for it, and caches the
/// last input. The output is laid out cell-major: all filters of one
/// output position are adjacent.
pub struct ConvLayer {
    pub in_rows: usize,
    pub in_cols: usize,
    pub k_rows: usize,
    pub k_cols: usize,
    pub filters: usize,
    pub padding: usize,
    pub kernels: Vec<i64>,
    pub opt_k: Optimizer,
    pub learning_rate: i64,
    pub last_input: Vec<i64>,
    pub has_input: bool,
}

impl ConvLayer {
    pub open spec fn out_rows(&self) -> int {
        self.in_rows + 2 * self.padding - self.k_rows + 1
    }

    pub open spec fn out_cols(&self) -> int {
        self.in_cols + 2 * self.padding - self.k_cols + 1
    }

    pub open spec fn kk(&self) -> int {
        self.k_rows * self.k_cols
    }

    pub open spec fn in_len(&self) -> int {
        self.in_rows * self.in_cols
    }

    pub open spec fn out_total(&self) -> int {
        self.out_rows() * self.out_cols() * self.filters
    }

    pub open spec fn wf(&self) -> bool {
        &&& 1 <= self.in_rows <= 32768
        &&& 1 <= self.in_cols <= 32768
        &&& 1 <= self.k_rows <= 32768
        &&& 1 <= self.k_cols <= 32768
        &&& 1 <= self.filters <= 32768
        &&& self.padding <= 32768
        &&& self.k_rows <= self.in_rows + 2 * self.padding
        &&& self.k_cols <= self.in_cols + 2 * self.padding
        &&& self.kernels@.len() == self.filters * self.kk()
        &&& self.out_total() <= usize::MAX
        &&& all_fx_ok(self.kernels@)
        &&& self.opt_k.wf()
        &&& fx_ok(self.learning_rate as int)
        &&& all_fx_ok(self.last_input@)
        &&& (self.has_input ==> self.last_input@.len() == self.in_len())
    }

    /// The forward map as a function of the kernels and the input alone.
    pub open spec fn out_pure_spec(&self, x: Seq<i64>) -> Seq<i64> {
        Seq::new(
            self.out_total() as nat,
            |q: int| conv_cell_s(
                self.kernels@,
                x,
                self.in_rows as int,
                self.in_cols as int,
                self.k_cols as int,
                self.padding as int,
                q % (self.filters as int),
                self.kk(),
                (q / (self.filters as int)) / self.out_cols(),
                (q / (self.filters as int)) % self.out_cols(),
                self.kk() as nat,
            ) as i64,
        )
    }
}

impl ConvLayer {
    /// The downstream gradient as a function of the kernels and the
    /// upstream gradient alone.
    pub open spec fn dx_spec(&self, g: Seq<i64>) -> Seq<i64> {
        Seq::new(
            self.in_len() as nat,
            |u: int| conv_dx_s(
                self.kernels@,
                g,
                self.k_cols as int,
                self.kk(),
                self.padding as int,
                self.out_rows(),
                self.out_cols(),
                self.filters as int,
                u / (self.in_cols as int),
                u % (self.in_cols as int),
                self.kk() as nat,
            ) as i64,
        )
    }

    /// The kernel gradient over the whole output.
    pub open spec fn dk_spec(&self, g: Seq<i64>) -> Seq<i64> {
        Seq::new(
            (self.filters * self.kk()) as nat,
            |v: int| conv_dk_s(
                self.last_input@,
                g,
                self.in_rows as int,
                self.in_cols as int,
                self.k_cols as int,
                self.padding as int,
                self.out_cols(),
                self.filters as int,
                v / self.kk(),
                v % self.kk(),
                (self.out_rows() * self.out_cols()) as nat,
            ) as i64,
        )
    }

    /// A fresh convolution layer: kernels drawn uniformly from [-1/2, 1/2)
    /// and a fresh zero-state optimizer cloned from the template.
    pub fn new(
        in_rows: usize,
        in_cols: usize,
        k_rows: usize,
        k_cols: usize,
        filters: usize,
        padding: usize,
        learning_rate: i64,
        template: &Optimizer,
    ) -> (r: Self)
        requires
            1 <= in_rows <= 32768,
            1 <= in_cols <= 32768,
            1 <= k_rows <= 32768,
            1 <= k_cols <= 32768,
            1 <= filters <= 32768,
            padding <= 32768,
            k_rows <= in_rows + 2 * padding,
            k_cols <= in_cols + 2 * padding,
            (in_rows + 2 * padding - k_rows + 1) * (in_cols + 2 * padding - k_cols + 1) * filters
                <= usize::MAX,
            filters * (k_rows * k_cols) <= usize::MAX,
            fx_ok(learning_rate as int),
        ensures
            r.wf(),
            r.in_rows == in_rows,
            r.in_cols == in_cols,
            r.k_rows == k_rows,
            r.k_cols == k_cols,
            r.filters == filters,
            r.padding == padding,
            r.learning_rate == learning_rate,
            !r.has_input,
            r.opt_k.kind() == template.kind(),
    {
        proof {
            assert((k_rows as int) * (k_cols as int) <= 0x40000000) by (nonlinear_arith)
                requires
                    1 <= k_rows as int <= 32768,
                    1 <= k_cols as int <= 32768,
            ;
        }
        let kk: usize = k_rows * k_cols;
        let n: usize = filters * kk;
        let mut w: Vec<i64> = Vec::new();
        let mut i: usize = 0;
        while i < n
            invariant
                i <= n,
                w@.len() == i,
                all_fx_ok(w@),
            decreases n - i,
        {
            let draw: u32 = crate::rng::rand_u32();
            w.push((draw as i64) - FX_HALF);
            i = i + 1;
        }
        ConvLayer {
            in_rows,
            in_cols,
            k_rows,
            k_cols,
            filters,
            padding,
            kernels: w,
            opt_k: template.fresh_like(),
            learning_rate,
            last_input: Vec::new(),
            has_input: false,
        }
    }

    /// Slide every kernel over the padded input; caches the input.
    pub fn forward(&mut self, x: &Vec<i64>) -> (r: Vec<i64>)
        requires
            old(self).wf(),
            x@.len() == old(self).in_len(),
            old(self).out_total() <= usize::MAX,
            all_fx_ok(x@),
        ensures
            r@ == old(self).out_pure_spec(x@),
            r@.len() == old(self).out_total(),
            all_fx_ok(r@),
            final(self).wf(),
            *final(self) == (ConvLayer { last_input: final(self).last_input, has_input: true, ..*old(self) }),
            final(self).last_input@ == x@,
            final(self).has_input,
    {
        let or_: usize = self.in_rows + 2 * self.padding - self.k_rows + 1;
        let oc_: usize = self.in_cols + 2 * self.padding - self.k_cols + 1;
        proof {
            assert((self.k_rows as int) * (self.k_cols as int) <= 0x40000000) by (nonlinear_arith)
                requires
                    1 <= self.k_rows as int <= 32768,
                    1 <= self.k_cols as int <= 32768,
            ;
        }
        let kk_: usize = self.k_rows * self.k_cols;
        let nf: usize = self.filters;
        let xlen: usize = x.len();
        let klen: usize = self.kernels.len();
        proof {
            assert((or_ as int) * (oc_ as int) <= (or_ as int) * (oc_ as int) * (nf as int)
                && (or_ as int) * (oc_ as int) >= 0) by (nonlinear_arith)
                requires
                    1 <= nf as int,
                    0 <= or_ as int,
                    0 <= oc_ as int,
            ;
        }
        let cells: usize = or_ * oc_;
        let total: usize = cells * nf;
        let mut out: Vec<i64> = Vec::new();
        let mut q: usize = 0;
        while q < total
            invariant
                q <= total,
                self == old(self),
                self.wf(),
                x@.len() == self.in_len(),
                all_fx_ok(x@),
                or_ == self.out_rows(),
                oc_ == self.out_cols(),
                kk_ == self.kk(),
                nf == self.filters,
                cells == or_ * oc_,
                total == self.out_total(),
                xlen == x@.len(),
                klen == self.kernels@.len(),
                out@.len() == q,
                forall|s: int| 0 <= s < q ==> out@[s] == self.out_pure_spec(x@)[s],
                all_fx_ok(out@),
            decreases total - q,
        {
            let m: usize = q / nf;
            let f: usize = q % nf;
            proof {
                assert(m < cells && f < nf) by (nonlinear_arith)
                    requires
                        q < total,
                        total as int == (cells as int) * (nf as int),
                        m as int == (q as int) / (nf as int),
                        f as int == (q as int) % (nf as int),
                        1 <= nf as int,
                        0 <= q as int,
                ;
                assert((m as int) / (oc_ as int) < or_ as int && (m as int) % (oc_ as int)
                    < oc_ as int) by (nonlinear_arith)
                    requires
                        m < cells,
                        cells as int == (or_ as int) * (oc_ as int),
                        1 <= oc_ as int,
                        0 <= m as int,
                ;
            }
            let i: usize = m / oc_;
            let j: usize = m % oc_;
            let mut acc: i64 = 0;
            let mut t: usize = 0;
            while t < kk_
                invariant
                    t <= kk_,
                    self == old(self),
                    self.wf(),
                    x@.len() == self.in_len(),
                    all_fx_ok(x@),
                    or_ == self.out_rows(),
                    oc_ == self.out_cols(),
                    kk_ == self.kk(),
                    nf == self.filters,
                    xlen == x@.len(),
                    klen == self.kernels@.len(),
                    i < or_,
                    j < oc_,
                    f < nf,
                    acc == conv_cell_s(
                        self.kernels@,
                        x@,
                        self.in_rows as int,
                        self.in_cols as int,
                        self.k_cols as int,
                        self.padding as int,
                        f as int,
                        kk_ as int,
                        i as int,
                        j as int,
                        t as nat,
                    ),
                    fx_ok(acc as int),
                decreases kk_ - t,
            {
                proof {
                    assert((t as int) / (self.k_cols as int) < self.k_rows as int && (t as int)
                        % (self.k_cols as int) < self.k_cols as int) by (nonlinear_arith)
                        requires
                            t < kk_,
                            kk_ as int == (self.k_rows as int) * (self.k_cols as int),
                            1 <= self.k_cols as int,
                            0 <= t as int,
                    ;
                }
                let a: usize = t / self.k_cols;
                let b: usize = t % self.k_cols;
                let ri: usize = i + a;
                let cj: usize = j + b;
                let val: i64 = if ri >= self.padding && ri - self.padding < self.in_rows && cj
                    >= self.padding && cj - self.padding < self.in_cols {
                    proof {
                        assert(((ri - self.padding) as int) * (self.in_cols as int) + ((cj
                            - self.padding) as int) < (self.in_rows as int) * (
                        self.in_cols as int)) by (nonlinear_arith)
                            requires
                                0 <= (ri - self.padding) as int,
                                ((ri - self.padding) as int) < self.in_rows as int,
                                0 <= ((cj - self.padding) as int),
                                ((cj - self.padding) as int) < self.in_cols as int,
                                1 <= self.in_cols as int,
                        ;
                    }
                    x[(ri - self.padding) * self.in_cols + (cj - self.padding)]
                } else {
                    0
                };
                proof {
                    assert(val == conv_patch_s(
                        x@,
                        self.in_rows as int,
                        self.in_cols as int,
                        self.k_cols as int,
                        self.padding as int,
                        i as int,
                        j as int,
                        t as int,
                    ));
                    assert((f as int) * (kk_ as int) + (t as int) < (nf as int) * (kk_ as int))
                        by (nonlinear_arith)
                        requires
                            f < nf,
                            t < kk_,
                            0 <= f,
                            0 <= t,
                            0 <= kk_ as int,
                    ;
                }
                let widx: usize = f * kk_ + t;
                acc = fx_add(acc, fx_mul(self.kernels[widx], val));
                t = t + 1;
            }
            out.push(acc);
            q = q + 1;
        }
        proof {
            assert(out@ =~= old(self).out_pure_spec(x@));
        }
        let n: usize = x.len();
        let mut cache: Vec<i64> = Vec::new();
        let mut ci: usize = 0;
        while ci < n
            invariant
                ci <= n,
                n == x@.len(),
                cache@.len() == ci,
                forall|s: int| 0 <= s < ci ==> cache@[s] == x@[s],
            decreases n - ci,
        {
            cache.push(x[ci]);
            ci = ci + 1;
        }
        proof {
            assert(cache@ =~= x@);
        }
        self.last_input = cache;
        self.has_input = true;
        out
    }
}

impl ConvLayer {
    /// The backward map: the downstream gradient uses the pre-update
    /// kernels; the kernel gradient correlates the upstream gradient with
    /// the cached input's windows, and the kernels descend along the
    /// optimizer's adjusted step scaled by the learning rate.
    pub fn backward(&mut self, g: &Vec<i64>) -> (r: Vec<i64>)
        requires
            old(self).wf(),
            old(self).has_input,
            g@.len() == old(self).out_total(),
            all_fx_ok(g@),
        ensures
            r@ == old(self).dx_spec(g@),
            r@.len() == old(self).in_len(),
            all_fx_ok(r@),
            final(self).wf(),
            *final(self) == (ConvLayer {
                kernels: final(self).kernels,
                opt_k: final(self).opt_k,
                ..*old(self)
            }),
            exists|sk: Seq<i64>|
                #[trigger] opt_step_post(
                    old(self).opt_k,
                    final(self).opt_k,
                    old(self).dk_spec(g@),
                    sk,
                ) && final(self).kernels@ == descend_s(
                    old(self).kernels@,
                    old(self).learning_rate as int,
                    sk,
                ),
    {
        let or_: usize = self.in_rows + 2 * self.padding - self.k_rows + 1;
        let oc_: usize = self.in_cols + 2 * self.padding - self.k_cols + 1;
        proof {
            assert((self.k_rows as int) * (self.k_cols as int) <= 0x40000000
                && (self.in_rows as int) * (self.in_cols as int) <= 0x40000000)
                by (nonlinear_arith)
                requires
                    1 <= self.k_rows as int <= 32768,
                    1 <= self.k_cols as int <= 32768,
                    1 <= self.in_rows as int <= 32768,
                    1 <= self.in_cols as int <= 32768,
            ;
        }
        let kk_: usize = self.k_rows * self.k_cols;
        let nf: usize = self.filters;
        let klen: usize = self.kernels.len();
        let glen: usize = g.len();
        proof {
            assert((or_ as int) * (oc_ as int) <= (or_ as int) * (oc_ as int) * (nf as int)
                && (or_ as int) * (oc_ as int) >= 0) by (nonlinear_arith)
                requires
                    1 <= nf as int,
                    0 <= or_ as int,
                    0 <= oc_ as int,
            ;
        }
        let cells: usize = or_ * oc_;
        let in_total: usize = self.in_rows * self.in_cols;
        let ghost self0 = *self;
        let mut dx: Vec<i64> = Vec::new();
        let mut u: usize = 0;
        while u < in_total
            invariant
                u <= in_total,
                *self == self0,
                self.wf(),
                self.has_input,
                g@.len() == self.out_total(),
                all_fx_ok(g@),
                or_ == self.out_rows(),
                oc_ == self.out_cols(),
                kk_ == self.kk(),
                nf == self.filters,
                cells == or_ * oc_,
                glen == g@.len(),
                klen == self.kernels@.len(),
                in_total == self.in_len(),
                dx@.len() == u,
                forall|s: int| 0 <= s < u ==> dx@[s] == self0.dx_spec(g@)[s],
                all_fx_ok(dx@),
            decreases in_total - u,
        {
            proof {
                assert((u as int) / (self.in_cols as int) < self.in_rows as int && (u as int) % (
                self.in_cols as int) < self.in_cols as int) by (nonlinear_arith)
                    requires
                        u < in_total,
                        in_total as int == (self.in_rows as int) * (self.in_cols as int),
                        1 <= self.in_cols as int,
                        0 <= u as int,
                ;
            }
            let r_: usize = u / self.in_cols;
            let c_: usize = u % self.in_cols;
            let rp: usize = r_ + self.padding;
            let cp: usize = c_ + self.padding;
            let mut acc: i64 = 0;
            let mut t: usize = 0;
            while t < kk_
                invariant
                    t <= kk_,
                    *self == self0,
                    self.wf(),
                    g@.len() == self.out_total(),
                    all_fx_ok(g@),
                    or_ == self.out_rows(),
                    oc_ == self.out_cols(),
                    kk_ == self.kk(),
                    nf == self.filters,
                    cells == or_ * oc_,
                    glen == g@.len(),
                    klen == self.kernels@.len(),
                    rp == r_ + self.padding,
                    cp == c_ + self.padding,
                    r_ < self.in_rows,
                    c_ < self.in_cols,
                    acc == conv_dx_s(
                        self.kernels@,
                        g@,
                        self.k_cols as int,
                        kk_ as int,
                        self.padding as int,
                        or_ as int,
                        oc_ as int,
                        nf as int,
                        r_ as int,
                        c_ as int,
                        t as nat,
                    ),
                    fx_ok(acc as int),
                decreases kk_ - t,
            {
                proof {
                    assert((t as int) / (self.k_cols as int) < self.k_rows as int && (t as int)
                        % (self.k_cols as int) < self.k_cols as int) by (nonlinear_arith)
                        requires
                            t < kk_,
                            kk_ as int == (self.k_rows as int) * (self.k_cols as int),
                            1 <= self.k_cols as int,
                            0 <= t as int,
                    ;
                }
                let a: usize = t / self.k_cols;
                let b: usize = t % self.k_cols;
                if rp >= a && rp - a < or_ && cp >= b && cp - b < oc_ {
                    proof {
                        assert(((rp - a) as int) * (oc_ as int) + ((cp - b) as int) < (
                        or_ as int) * (oc_ as int)) by (nonlinear_arith)
                            requires
                                0 <= (rp - a) as int,
                                ((rp - a) as int) < or_ as int,
                                0 <= (cp - b) as int,
                                ((cp - b) as int) < oc_ as int,
                                1 <= oc_ as int,
                        ;
                        assert((((rp - a) as int) * (oc_ as int) + ((cp - b) as int)) * (
                        nf as int) + (nf as int) <= ((or_ as int) * (oc_ as int)) * (nf as int))
                            by (nonlinear_arith)
                            requires
                                0 <= ((rp - a) as int) * (oc_ as int) + ((cp - b) as int),
                                ((rp - a) as int) * (oc_ as int) + ((cp - b) as int) < (
                                or_ as int) * (oc_ as int),
                                1 <= nf as int,
                        ;
                    }
                    let base: usize = ((rp - a) * oc_ + (cp - b)) * nf;
                    let mut accf: i64 = 0;
                    let mut f2: usize = 0;
                    while f2 < nf
                        invariant
                            f2 <= nf,
                            *self == self0,
                            self.wf(),
                            all_fx_ok(g@),
                            glen == g@.len(),
                            klen == self.kernels@.len(),
                            kk_ == self.kk(),
                            nf == self.filters,
                            t < kk_,
                            base + nf <= glen,
                            accf == dot_col_s(
                                self.kernels@,
                                g@.subrange(base as int, base as int + nf as int),
                                kk_ as nat,
                                t as int,
                                f2 as nat,
                            ),
                            fx_ok(accf as int),
                        decreases nf - f2,
                    {
                        proof {
                            assert((f2 as int) * (kk_ as int) + (t as int) < (nf as int) * (
                            kk_ as int)) by (nonlinear_arith)
                                requires
                                    f2 < nf,
                                    t < kk_,
                                    0 <= f2,
                                    0 <= t,
                                    0 <= kk_ as int,
                            ;
                        }
                        let widx: usize = f2 * kk_ + t;
                        accf = fx_add(accf, fx_mul(self.kernels[widx], g[base + f2]));
                        f2 = f2 + 1;
                    }
                    acc = fx_add(acc, accf);
                } else {
                    acc = fx_add(acc, 0);
                }
                t = t + 1;
            }
            dx.push(acc);
            u = u + 1;
        }
        proof {
            assert(dx@ =~= self0.dx_spec(g@));
        }
        let mut dk: Vec<i64> = Vec::new();
        let mut v: usize = 0;
        while v < klen
            invariant
                v <= klen,
                *self == self0,
                self.wf(),
                self.has_input,
                g@.len() == self.out_total(),
                all_fx_ok(g@),
                or_ == self.out_rows(),
                oc_ == self.out_cols(),
                kk_ == self.kk(),
                nf == self.filters,
                cells == or_ * oc_,
                glen == g@.len(),
                klen == self.kernels@.len(),
                dk@.len() == v,
                forall|s: int| 0 <= s < v ==> dk@[s] == self0.dk_spec(g@)[s],
                all_fx_ok(dk@),
            decreases klen - v,
        {
            proof {
                assert((v as int) / (kk_ as int) < nf as int && (v as int) % (kk_ as int)
                    < kk_ as int) by (nonlinear_arith)
                    requires
                        v < klen,
                        klen as int == (nf as int) * (kk_ as int),
                        1 <= kk_ as int,
                        0 <= v as int,
                ;
            }
            let f: usize = v / kk_;
            let t: usize = v % kk_;
            proof {
                assert((t as int) / (self.k_cols as int) < self.k_rows as int && (t as int) % (
                self.k_cols as int) < self.k_cols as int) by (nonlinear_arith)
                    requires
                        t < kk_,
                        kk_ as int == (self.k_rows as int) * (self.k_cols as int),
                        1 <= self.k_cols as int,
                        0 <= t as int,
                ;
            }
            let a: usize = t / self.k_cols;
            let b: usize = t % self.k_cols;
            let mut acc: i64 = 0;
            let mut m: usize = 0;
            while m < cells
                invariant
                    m <= cells,
                    *self == self0,
                    self.wf(),
                    self.has_input,
                    g@.len() == self.out_total(),
                    all_fx_ok(g@),
                    or_ == self.out_rows(),
                    oc_ == self.out_cols(),
                    kk_ == self.kk(),
                    nf == self.filters,
                    cells == or_ * oc_,
                    glen == g@.len(),
                    f < nf,
                    t < kk_,
                    a == (t as int) / (self.k_cols as int),
                    b == (t as int) % (self.k_cols as int),
                    a < self.k_rows,
                    b < self.k_cols,
                    acc == conv_dk_s(
                        self.last_input@,
                        g@,
                        self.in_rows as int,
                        self.in_cols as int,
                        self.k_cols as int,
                        self.padding as int,
                        oc_ as int,
                        nf as int,
                        f as int,
                        t as int,
                        m as nat,
                    ),
                    fx_ok(acc as int),
                decreases cells - m,
            {
                proof {
                    assert((m as int) / (oc_ as int) < or_ as int && (m as int) % (oc_ as int)
                        < oc_ as int) by (nonlinear_arith)
                        requires
                            m < cells,
                            cells as int == (or_ as int) * (oc_ as int),
                            1 <= oc_ as int,
                            0 <= m as int,
                    ;
                }
                let i: usize = m / oc_;
                let j: usize = m % oc_;
                let ri: usize = i + a;
                let cj: usize = j + b;
                let val: i64 = if ri >= self.padding && ri - self.padding < self.in_rows && cj
                    >= self.padding && cj - self.padding < self.in_cols {
                    proof {
                        assert(((ri - self.padding) as int) * (self.in_cols as int) + ((cj
                            - self.padding) as int) < (self.in_rows as int) * (
                        self.in_cols as int)) by (nonlinear_arith)
                            requires
                                0 <= (ri - self.padding) as int,
                                ((ri - self.padding) as int) < self.in_rows as int,
                                0 <= ((cj - self.padding) as int),
                                ((cj - self.padding) as int) < self.in_cols as int,
                                1 <= self.in_cols as int,
                        ;
                        assert((self.in_rows as int) * (self.in_cols as int) <= 0x40000000)
                            by (nonlinear_arith)
                            requires
                                1 <= self.in_rows as int <= 32768,
                                1 <= self.in_cols as int <= 32768,
                        ;
                    }
                    self.last_input[(ri - self.padding) * self.in_cols + (cj - self.padding)]
                } else {
                    0
                };
                proof {
                    assert(val == conv_patch_s(
                        self.last_input@,
                        self.in_rows as int,
                        self.in_cols as int,
                        self.k_cols as int,
                        self.padding as int,
                        i as int,
                        j as int,
                        t as int,
                    ));
                    assert((m as int) * (nf as int) + (f as int) < ((or_ as int) * (
                    oc_ as int)) * (nf as int)) by (nonlinear_arith)
                        requires
                            m < cells,
                            f < nf,
                            cells as int == (or_ as int) * (oc_ as int),
                            0 <= m,
                            0 <= f,
                            0 <= nf as int,
                    ;
                }
                let gidx: usize = m * nf + f;
                acc = fx_add(acc, fx_mul(g[gidx], val));
                m = m + 1;
            }
            dk.push(acc);
            v = v + 1;
        }
        proof {
            assert(dk@ =~= self0.dk_spec(g@));
        }
        let step: Vec<i64> = self.opt_k.optimize(&dk);
        descend(&mut self.kernels, self.learning_rate, &step);
        dx
    }
}

/// The polymorphic layer: a tagged union of the variants, dispatched by
/// capability.
pub enum Layer {
    Dense(DenseLayer),
    Conv(ConvLayer),
    Sigmoid(SigmoidLayer),
    Relu(ReluLayer),
    Flatten(FlattenLayer),
}

impl Layer {
    pub open spec fn wf(&self) -> bool {
        match *self {
            Layer::Dense(d) => d.wf(),
            Layer::Conv(c) => c.wf(),
            Layer::Sigmoid(s) => s.wf(),
            Layer::Relu(r) => r.wf(),
            Layer::Flatten(_) => true,
        }
    }

    /// Whether an input of length n fits this layer.
    pub open spec fn in_ok(&self, n: nat) -> bool {
        match *self {
            Layer::Dense(d) => n == d.in_dim,
            Layer::Conv(c) => n == c.in_len(),
            _ => true,
        }
    }

    /// The output length on an input of length n.
    pub open spec fn out_len(&self, n: nat) -> nat {
        match *self {
            Layer::Dense(d) => d.out_dim as nat,
            Layer::Conv(c) => c.out_total() as nat,
            _ => n,
        }
    }

    /// What forward returns: a function of the parameters and the input
    /// alone, never of the caches.
    pub open spec fn out_pure(&self, x: Seq<i64>) -> Seq<i64> {
        match *self {
            Layer::Dense(d) => dense_out_s(d.weights@, d.bias@, x, d.in_dim as nat),
            Layer::Conv(c) => c.out_pure_spec(x),
            Layer::Sigmoid(_) => sigmap_s(x),
            Layer::Relu(_) => relumap_s(x),
            Layer::Flatten(_) => x,
        }
    }

    /// Two layers agree on everything but their caches: same variant, same
    /// parameters, same optimizer state, same learning rate.
    pub open spec fn params_eq(l0: Layer, l1: Layer) -> bool {
        match l0 {
            Layer::Dense(d0) => {
                &&& l1 matches Layer::Dense(d1)
                &&& d0.in_dim == d1.in_dim
                &&& d0.out_dim == d1.out_dim
                &&& d0.weights == d1.weights
                &&& d0.bias == d1.bias
                &&& d0.opt_w == d1.opt_w
                &&& d0.opt_b == d1.opt_b
                &&& d0.learning_rate == d1.learning_rate
            },
            Layer::Conv(c0) => {
                &&& l1 matches Layer::Conv(c1)
                &&& c0.in_rows == c1.in_rows
                &&& c0.in_cols == c1.in_cols
                &&& c0.k_rows == c1.k_rows
                &&& c0.k_cols == c1.k_cols
                &&& c0.filters == c1.filters
                &&& c0.padding == c1.padding
                &&& c0.kernels == c1.kernels
                &&& c0.opt_k == c1.opt_k
                &&& c0.learning_rate == c1.learning_rate
            },
            Layer::Sigmoid(_) => l1 is Sigmoid,
            Layer::Relu(_) => l1 is Relu,
            Layer::Flatten(_) => l1 is Flatten,
        }
    }

    /// Parameter-equal layers compute the same forward output.
    pub proof fn lemma_params_eq_out(l0: Layer, l1: Layer, x: Seq<i64>)
        requires
            Layer::params_eq(l0, l1),
        ensures
            l0.out_pure(x) == l1.out_pure(x),
            l0.in_ok(x.len()) == l1.in_ok(x.len()),
            l0.out_len(x.len()) == l1.out_len(x.len()),
    {
        match l0 {
            Layer::Conv(c0) => {
                if let Layer::Conv(c1) = l1 {
                    assert(c0.out_pure_spec(x) =~= c1.out_pure_spec(x));
                }
            },
            _ => {},
        }
    }

    /// The caches hold data for an input of length n.
    pub open spec fn primed(&self, n: nat) -> bool {
        match *self {
            Layer::Dense(d) => d.has_input,
            Layer::Conv(c) => c.has_input,
            Layer::Sigmoid(s) => s.ran && s.output@.len() == n,
            Layer::Relu(r) => r.ran && r.output@.len() == n,
            Layer::Flatten(f) => f.ran && f.seen == n,
        }
    }

    /// What a forward call does to the layer on input x: parameters are
    /// untouched and the caches now hold x's data.
    pub open spec fn fwd_post(l0: Layer, l1: Layer, x: Seq<i64>) -> bool {
        &&& Layer::params_eq(l0, l1)
        &&& match l1 {
            Layer::Dense(d1) => d1.last_input@ == x && d1.has_input,
            Layer::Conv(c1) => c1.last_input@ == x && c1.has_input,
            Layer::Sigmoid(s1) => s1.output@ == sigmap_s(x) && s1.ran,
            Layer::Relu(r1) => r1.output@ == relumap_s(x) && r1.ran,
            Layer::Flatten(f1) => f1.seen == x.len() && f1.ran,
        }
    }

    /// What a backward call does: the returned downstream gradient, and for
    /// dense layers the optimizer step and parameter descent; activation
    /// layers are left unchanged.
    pub open spec fn bwd_post(l0: Layer, l1: Layer, g: Seq<i64>, r: Seq<i64>) -> bool {
        match l0 {
            Layer::Dense(d0) => {
                &&& l1 matches Layer::Dense(d1)
                &&& r == dense_down_s(d0.weights@, g, d0.in_dim as nat)
                &&& d1.in_dim == d0.in_dim
                &&& d1.out_dim == d0.out_dim
                &&& d1.learning_rate == d0.learning_rate
                &&& d1.last_input == d0.last_input
                &&& d1.has_input
                &&& exists|sw: Seq<i64>|
                    #[trigger] opt_step_post(d0.opt_w, d1.opt_w, outer_s(g, d0.last_input@), sw)
                        && d1.weights@ == descend_s(d0.weights@, d0.learning_rate as int, sw)
                &&& exists|sb: Seq<i64>|
                    #[trigger] opt_step_post(d0.opt_b, d1.opt_b, g, sb) && d1.bias@ == descend_s(
                        d0.bias@,
                        d0.learning_rate as int,
                        sb,
                    )
            },
            Layer::Conv(c0) => {
                &&& l1 matches Layer::Conv(c1)
                &&& r == c0.dx_spec(g)
                &&& c1 == (ConvLayer { kernels: c1.kernels, opt_k: c1.opt_k, ..c0 })
                &&& exists|sk: Seq<i64>|
                    #[trigger] opt_step_post(c0.opt_k, c1.opt_k, c0.dk_spec(g), sk)
                        && c1.kernels@ == descend_s(c0.kernels@, c0.learning_rate as int, sk)
            },
            Layer::Sigmoid(s0) => l1 == l0 && r == sig_back_s(s0.output@, g),
            Layer::Relu(r0) => l1 == l0 && r == relu_back_s(r0.output@, g),
            Layer::Flatten(_) => l1 == l0 && r == g,
        }
    }

    /// Whether a gradient of length glen fits this layer's backward pass.
    pub open spec fn bwd_in_ok(&self, glen: nat) -> bool {
        match *self {
            Layer::Dense(d) => d.has_input && glen == d.out_dim,
            Layer::Conv(c) => c.has_input && glen == c.out_total(),
            Layer::Sigmoid(s) => s.ran && glen == s.output@.len(),
            Layer::Relu(r) => r.ran && glen == r.output@.len(),
            Layer::Flatten(f) => f.ran && glen == f.seen,
        }
    }

    /// The length of the downstream gradient backward returns.
    pub open spec fn back_len(&self, glen: nat) -> nat {
        match *self {
            Layer::Dense(d) => d.in_dim as nat,
            Layer::Conv(c) => c.in_len() as nat,
            _ => glen,
        }
    }

    /// Compute the layer's output and cache what backward will need.
    pub fn forward(&mut self, x: &Vec<i64>) -> (r: Vec<i64>)
        requires
            old(self).wf(),
            old(self).in_ok(x@.len() as nat),
            all_fx_ok(x@),
        ensures
            r@ == old(self).out_pure(x@),
            r@.len() == old(self).out_len(x@.len() as nat),
            all_fx_ok(r@),
            final(self).wf(),
            Layer::fwd_post(*old(self), *final(self), x@),
            final(self).primed(x@.len() as nat),
            final(self).bwd_in_ok(old(self).out_len(x@.len() as nat)),
    {
        match self {
            Layer::Dense(d) => d.forward(x),
            Layer::Conv(c) => c.forward(x),
            Layer::Sigmoid(s) => s.forward(x),
            Layer::Relu(r) => r.forward(x),
            Layer::Flatten(f) => f.forward(x),
        }
    }

    /// Forward with the layer's own shape check: an input whose length the
    /// layer cannot take is refused with ShapeMismatch.
    pub fn forward_checked(&mut self, x: &Vec<i64>) -> (r: Result<
        Vec<i64>,
        crate::nn::NetError,
    >)
        requires
            old(self).wf(),
            all_fx_ok(x@),
        ensures
            r is Ok <==> old(self).in_ok(x@.len() as nat),
            r is Err ==> *final(self) == *old(self) && r->Err_0
                == crate::nn::NetError::ShapeMismatch,
            r is Ok ==> r->Ok_0@ == old(self).out_pure(x@) && Layer::fwd_post(
                *old(self),
                *final(self),
                x@,
            ),
            final(self).wf(),
    {
        let fits: bool = match self {
            Layer::Dense(d) => d.in_dim == x.len(),
            Layer::Conv(c) => {
                proof {
                    assert((c.in_rows as int) * (c.in_cols as int) <= 0x40000000)
                        by (nonlinear_arith)
                        requires
                            1 <= c.in_rows as int <= 32768,
                            1 <= c.in_cols as int <= 32768,
                    ;
                }
                c.in_rows * c.in_cols == x.len()
            },
            _ => true,
        };
        if !fits {
            return Err(crate::nn::NetError::ShapeMismatch);
        }
        Ok(self.forward(x))
    }

    /// Backward with the layer's own state check: before any forward pass
    /// there is nothing cached to differentiate against, which is refused
    /// with UninitializedState; a gradient of the wrong length with
    /// ShapeMismatch.
    pub fn backward_checked(&mut self, g: &Vec<i64>) -> (r: Result<
        Vec<i64>,
        crate::nn::NetError,
    >)
        requires
            old(self).wf(),
            all_fx_ok(g@),
        ensures
            r is Ok <==> old(self).bwd_in_ok(g@.len() as nat),
            r is Err ==> *final(self) == *old(self),
            r is Ok ==> Layer::bwd_post(*old(self), *final(self), g@, r->Ok_0@),
            ({
                let ran = match *old(self) {
                    Layer::Dense(d) => d.has_input,
                    Layer::Conv(c) => c.has_input,
                    Layer::Sigmoid(s) => s.ran,
                    Layer::Relu(rl) => rl.ran,
                    Layer::Flatten(f) => f.ran,
                };
                &&& (r is Err && !ran ==> r->Err_0 == crate::nn::NetError::UninitializedState)
                &&& (r is Err && ran ==> r->Err_0 == crate::nn::NetError::ShapeMismatch)
            }),
            final(self).wf(),
    {
        let ran: bool = match self {
            Layer::Dense(d) => d.has_input,
            Layer::Conv(c) => c.has_input,
            Layer::Sigmoid(s) => s.ran,
            Layer::Relu(rl) => rl.ran,
            Layer::Flatten(f) => f.ran,
        };
        if !ran {
            return Err(crate::nn::NetError::UninitializedState);
        }
        let fits: bool = match self {
            Layer::Dense(d) => d.out_dim == g.len(),
            Layer::Conv(c) => {
                let or_: usize = c.in_rows + 2 * c.padding - c.k_rows + 1;
                let oc_: usize = c.in_cols + 2 * c.padding - c.k_cols + 1;
                proof {
                    assert((or_ as int) * (oc_ as int) <= (or_ as int) * (oc_ as int) * (
                    c.filters as int) && (or_ as int) * (oc_ as int) >= 0) by (nonlinear_arith)
                        requires
                            1 <= c.filters as int,
                            0 <= or_ as int,
                            0 <= oc_ as int,
                    ;
                }
                or_ * oc_ * c.filters == g.len()
            },
            Layer::Sigmoid(s) => s.output.len() == g.len(),
            Layer::Relu(rl) => rl.output.len() == g.len(),
            Layer::Flatten(f) => f.seen == g.len(),
        };
        if !fits {
            return Err(crate::nn::NetError::ShapeMismatch);
        }
        Ok(self.backward(g))
    }

    /// Propagate a gradient backward, updating owned parameters.
    pub fn backward(&mut self, g: &Vec<i64>) -> (r: Vec<i64>)
        requires
            old(self).wf(),
            old(self).bwd_in_ok(g@.len() as nat),
            all_fx_ok(g@),
        ensures
            r@.len() == old(self).back_len(g@.len() as nat),
            all_fx_ok(r@),
            final(self).wf(),
            Layer::bwd_post(*old(self), *final(self), g@, r@),
    {
        match self {
            Layer::Dense(d) => d.backward(g),
            Layer::Conv(c) => c.backward(g),
            Layer::Sigmoid(s) => s.backward(g),
            Layer::Relu(r) => r.backward(g),
            Layer::Flatten(f) => f.backward(g),
        }
    }
}

} // verus!