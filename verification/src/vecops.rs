use vstd::prelude::*;
use crate::fx::{fx_ok, fx_add_s, fx_sub_s, fx_mul_s, fx_add, fx_sub, fx_mul};

verus! {

/// Vectors of fixed-point values and the elementwise operations the layers,
/// losses and optimizers share. Every operation carries an exact
/// element-by-element specification.

/// All entries of a sequence are well-formed fixed-point values.
pub open spec fn all_fx_ok(s: Seq<i64>) -> bool {
    forall|i: int| 0 <= i < s.len() ==> fx_ok(#[trigger] s[i] as int)
}

/// A vector of zeros.
pub fn zeros(n: usize) -> (r: Vec<i64>)
    ensures
        r@.len() == n,
        forall|i: int| 0 <= i < n ==> r@[i] == 0i64,
        all_fx_ok(r@),
{
    let mut r: Vec<i64> = Vec::new();
    let mut i: usize = 0;
    while i < n
        invariant
            i <= n,
            r@.len() == i,
            forall|j: int| 0 <= j < i ==> r@[j] == 0i64,
        decreases n - i,
    {
        r.push(0);
        i = i + 1;
    }
    r
}

/// Elementwise saturating product.
pub open spec fn vmul_s(a: Seq<i64>, b: Seq<i64>) -> Seq<i64> {
    Seq::new(a.len(), |i: int| fx_mul_s(a[i] as int, b[i] as int) as i64)
}

pub fn vmul(a: &Vec<i64>, b: &Vec<i64>) -> (r: Vec<i64>)
    requires
        a@.len() == b@.len(),
        all_fx_ok(a@),
        all_fx_ok(b@),
    ensures
        r@ == vmul_s(a@, b@),
        r@.len() == a@.len(),
        all_fx_ok(r@),
{
    let n: usize = a.len();
    let mut r: Vec<i64> = Vec::new();
    let mut i: usize = 0;
    while i < n
        invariant
            i <= n,
            n == a@.len() == b@.len(),
            all_fx_ok(a@),
            all_fx_ok(b@),
            r@.len() == i,
            forall|j: int| 0 <= j < i ==> r@[j] == fx_mul_s(a@[j] as int, b@[j] as int) as i64,
            all_fx_ok(r@),
        decreases n - i,
    {
        r.push(fx_mul(a[i], b[i]));
        i = i + 1;
    }
    proof {
        assert(r@ =~= vmul_s(a@, b@));
    }
    r
}

/// Elementwise saturating difference.
pub open spec fn vsub_s(a: Seq<i64>, b: Seq<i64>) -> Seq<i64> {
    Seq::new(a.len(), |i: int| fx_sub_s(a[i] as int, b[i] as int) as i64)
}

pub fn vsub(a: &Vec<i64>, b: &Vec<i64>) -> (r: Vec<i64>)
    requires
        a@.len() == b@.len(),
        all_fx_ok(a@),
        all_fx_ok(b@),
    ensures
        r@ == vsub_s(a@, b@),
        r@.len() == a@.len(),
        all_fx_ok(r@),
{
    let n: usize = a.len();
    let mut r: Vec<i64> = Vec::new();
    let mut i: usize = 0;
    while i < n
        invariant
            i <= n,
            n == a@.len() == b@.len(),
            all_fx_ok(a@),
            all_fx_ok(b@),
            r@.len() == i,
            forall|j: int| 0 <= j < i ==> r@[j] == fx_sub_s(a@[j] as int, b@[j] as int) as i64,
            all_fx_ok(r@),
        decreases n - i,
    {
        r.push(fx_sub(a[i], b[i]));
        i = i + 1;
    }
    proof {
        assert(r@ =~= vsub_s(a@, b@));
    }
    r
}

/// Saturating dot product of a row of a flat matrix with a vector,
/// accumulated left to right.
pub open spec fn dot_row_s(w: Seq<i64>, x: Seq<i64>, off: int, j: nat) -> int
    decreases j,
{
    if j == 0 {
        0
    } else {
        fx_add_s(
            dot_row_s(w, x, off, (j - 1) as nat),
            fx_mul_s(w[off + j - 1] as int, x[j - 1] as int),
        )
    }
}

/// The affine map of a dense layer: out[i] = row_i(w) . x + b[i].
pub open spec fn dense_out_s(w: Seq<i64>, b: Seq<i64>, x: Seq<i64>, in_dim: nat) -> Seq<i64> {
    Seq::new(b.len(), |i: int| fx_add_s(dot_row_s(w, x, i * in_dim as int, in_dim), b[i] as int) as i64)
}

/// dot_row_s stays inside the saturation bounds.
pub proof fn lemma_dot_row_ok(w: Seq<i64>, x: Seq<i64>, off: int, j: nat)
    ensures
        fx_ok(dot_row_s(w, x, off, j)),
    decreases j,
{
    if j != 0 {
        lemma_dot_row_ok(w, x, off, (j - 1) as nat);
    }
}

pub fn matvec(w: &Vec<i64>, b: &Vec<i64>, x: &Vec<i64>) -> (r: Vec<i64>)
    requires
        w@.len() == b@.len() * x@.len(),
        all_fx_ok(w@),
        all_fx_ok(b@),
        all_fx_ok(x@),
    ensures
        r@ == dense_out_s(w@, b@, x@, x@.len() as nat),
        r@.len() == b@.len(),
        all_fx_ok(r@),
{
    let out_dim: usize = b.len();
    let in_dim: usize = x.len();
    let wlen: usize = w.len();
    let mut r: Vec<i64> = Vec::new();
    let mut i: usize = 0;
    while i < out_dim
        invariant
            i <= out_dim,
            out_dim == b@.len(),
            in_dim == x@.len(),
            wlen == w@.len(),
            w@.len() == b@.len() * x@.len(),
            all_fx_ok(w@),
            all_fx_ok(b@),
            all_fx_ok(x@),
            r@.len() == i,
            forall|t: int| 0 <= t < i ==> r@[t] == fx_add_s(
                dot_row_s(w@, x@, t * in_dim as int, in_dim as nat),
                b@[t] as int,
            ) as i64,
            all_fx_ok(r@),
        decreases out_dim - i,
    {
        let mut acc: i64 = 0;
        let mut j: usize = 0;
        proof {
            assert((i as int) * (in_dim as int) + (in_dim as int) <= (out_dim as int) * (in_dim as int))
                by (nonlinear_arith)
                requires
                    0 <= i as int && (i as int) < out_dim as int,
                    0 <= in_dim as int,
            ;
        }
        while j < in_dim
            invariant
                j <= in_dim,
                i < out_dim,
                out_dim == b@.len(),
                in_dim == x@.len(),
                w@.len() == b@.len() * x@.len(),
                wlen == w@.len(),
                (i as int) * (in_dim as int) + (in_dim as int) <= w@.len(),
                all_fx_ok(w@),
                all_fx_ok(x@),
                acc == dot_row_s(w@, x@, i as int * in_dim as int, j as nat),
                fx_ok(acc as int),
            decreases in_dim - j,
        {
            let idx: usize = i * in_dim + j;
            acc = fx_add(acc, fx_mul(w[idx], x[j]));
            j = j + 1;
        }
        r.push(fx_add(acc, b[i]));
        i = i + 1;
    }
    proof {
        assert(r@ =~= dense_out_s(w@, b@, x@, x@.len() as nat));
    }
    r
}

/// Saturating dot product of a column of a flat matrix with a vector.
pub open spec fn dot_col_s(w: Seq<i64>, g: Seq<i64>, in_dim: nat, col: int, i: nat) -> int
    decreases i,
{
    if i == 0 {
        0
    } else {
        fx_add_s(
            dot_col_s(w, g, in_dim, col, (i - 1) as nat),
            fx_mul_s(w[(i - 1) * in_dim as int + col] as int, g[i - 1] as int),
        )
    }
}

/// The transposed map of a dense layer: down[j] = col_j(w) . g.
pub open spec fn dense_down_s(w: Seq<i64>, g: Seq<i64>, in_dim: nat) -> Seq<i64> {
    Seq::new(in_dim, |j: int| dot_col_s(w, g, in_dim, j, g.len() as nat) as i64)
}

pub proof fn lemma_dot_col_ok(w: Seq<i64>, g: Seq<i64>, in_dim: nat, col: int, i: nat)
    ensures
        fx_ok(dot_col_s(w, g, in_dim, col, i)),
    decreases i,
{
    if i != 0 {
        lemma_dot_col_ok(w, g, in_dim, col, (i - 1) as nat);
    }
}

pub fn matvec_t(w: &Vec<i64>, g: &Vec<i64>, in_dim: usize) -> (r: Vec<i64>)
    requires
        w@.len() == g@.len() * in_dim,
        all_fx_ok(w@),
        all_fx_ok(g@),
    ensures
        r@ == dense_down_s(w@, g@, in_dim as nat),
        r@.len() == in_dim,
        all_fx_ok(r@),
{
    let out_dim: usize = g.len();
    let wlen: usize = w.len();
    let mut r: Vec<i64> = Vec::new();
    let mut j: usize = 0;
    while j < in_dim
        invariant
            j <= in_dim,
            out_dim == g@.len(),
            wlen == w@.len(),
            w@.len() == g@.len() * in_dim,
            all_fx_ok(w@),
            all_fx_ok(g@),
            r@.len() == j,
            forall|t: int| 0 <= t < j ==> r@[t] == dot_col_s(w@, g@, in_dim as nat, t, g@.len() as nat) as i64,
            all_fx_ok(r@),
        decreases in_dim - j,
    {
        let mut acc: i64 = 0;
        let mut i: usize = 0;
        while i < out_dim
            invariant
                i <= out_dim,
                j < in_dim,
                out_dim == g@.len(),
                wlen == w@.len(),
                w@.len() == g@.len() * in_dim,
                all_fx_ok(w@),
                all_fx_ok(g@),
                acc == dot_col_s(w@, g@, in_dim as nat, j as int, i as nat),
                fx_ok(acc as int),
            decreases out_dim - i,
        {
            proof {
                assert((i as int) * (in_dim as int) + (in_dim as int) <= (out_dim as int) * (in_dim as int))
                    by (nonlinear_arith)
                    requires
                        0 <= i as int && (i as int) < out_dim as int,
                        0 <= in_dim as int,
                ;
            }
            let idx: usize = i * in_dim + j;
            acc = fx_add(acc, fx_mul(w[idx], g[i]));
            i = i + 1;
        }
        r.push(acc);
        j = j + 1;
    }
    proof {
        assert(r@ =~= dense_down_s(w@, g@, in_dim as nat));
    }
    r
}

/// The outer product of an upstream gradient with a cached input, flattened
/// row-major: grad[i * in_dim + j] = g[i] * x[j].
pub open spec fn outer_s(g: Seq<i64>, x: Seq<i64>) -> Seq<i64> {
    Seq::new(
        g.len() * x.len(),
        |t: int| fx_mul_s(g[t / x.len() as int] as int, x[t % x.len() as int] as int) as i64,
    )
}

pub fn outer(g: &Vec<i64>, x: &Vec<i64>) -> (r: Vec<i64>)
    requires
        x@.len() >= 1,
        g@.len() * x@.len() <= usize::MAX,
        all_fx_ok(g@),
        all_fx_ok(x@),
    ensures
        r@ == outer_s(g@, x@),
        r@.len() == g@.len() * x@.len(),
        all_fx_ok(r@),
{
    let out_dim: usize = g.len();
    let in_dim: usize = x.len();
    let mut r: Vec<i64> = Vec::new();
    let mut i: usize = 0;
    while i < out_dim
        invariant
            i <= out_dim,
            out_dim == g@.len(),
            in_dim == x@.len(),
            in_dim >= 1,
            out_dim * in_dim <= usize::MAX,
            all_fx_ok(g@),
            all_fx_ok(x@),
            r@.len() == i * in_dim,
            forall|t: int| 0 <= t < i * in_dim ==> r@[t] == fx_mul_s(
                g@[t / in_dim as int] as int,
                x@[t % in_dim as int] as int,
            ) as i64,
            all_fx_ok(r@),
        decreases out_dim - i,
    {
        let mut j: usize = 0;
        proof {
            assert((i as int + 1) * (in_dim as int) <= (out_dim as int) * (in_dim as int))
                by (nonlinear_arith)
                requires
                    0 <= i as int && (i as int) < out_dim as int,
                    0 <= in_dim as int,
            ;
        }
        while j < in_dim
            invariant
                j <= in_dim,
                i < out_dim,
                out_dim == g@.len(),
                in_dim == x@.len(),
                in_dim >= 1,
                (i as int + 1) * (in_dim as int) <= (out_dim as int) * (in_dim as int),
                out_dim * in_dim <= usize::MAX,
                all_fx_ok(g@),
                all_fx_ok(x@),
                r@.len() == i * in_dim + j,
                forall|t: int| 0 <= t < i * in_dim + j ==> r@[t] == fx_mul_s(
                    g@[t / in_dim as int] as int,
                    x@[t % in_dim as int] as int,
                ) as i64,
                all_fx_ok(r@),
            decreases in_dim - j,
        {
            r.push(fx_mul(g[i], x[j]));
            proof {
                let t = i as int * in_dim as int + j as int;
                assert(t / in_dim as int == i as int && t % in_dim as int == j as int)
                    by (nonlinear_arith)
                    requires
                        0 <= i as int,
                        0 <= j as int && (j as int) < in_dim as int,
                        t == i as int * in_dim as int + j as int,
                ;
            }
            j = j + 1;
        }
        proof {
            assert((i as int + 1) * (in_dim as int) == i as int * in_dim as int + in_dim as int)
                by (nonlinear_arith);
        }
        i = i + 1;
    }
    proof {
        assert(r@ =~= outer_s(g@, x@));
    }
    r
}

/// The gradient-descent update: p[t] <- p[t] - lr * step[t].
pub open spec fn descend_s(p: Seq<i64>, lr: int, step: Seq<i64>) -> Seq<i64> {
    Seq::new(p.len(), |t: int| fx_sub_s(p[t] as int, fx_mul_s(lr, step[t] as int)) as i64)
}

pub fn descend(p: &mut Vec<i64>, lr: i64, step: &Vec<i64>)
    requires
        old(p)@.len() == step@.len(),
        all_fx_ok(old(p)@),
        all_fx_ok(step@),
        fx_ok(lr as int),
    ensures
        final(p)@ == descend_s(old(p)@, lr as int, step@),
        final(p)@.len() == old(p)@.len(),
        all_fx_ok(final(p)@),
{
    let n: usize = p.len();
    let mut i: usize = 0;
    while i < n
        invariant
            i <= n,
            n == p@.len() == old(p)@.len() == step@.len(),
            all_fx_ok(old(p)@),
            all_fx_ok(step@),
            fx_ok(lr as int),
            forall|t: int| 0 <= t < i ==> p@[t] == fx_sub_s(
                old(p)@[t] as int,
                fx_mul_s(lr as int, step@[t] as int),
            ) as i64,
            forall|t: int| i <= t < n ==> p@[t] == old(p)@[t],
            all_fx_ok(p@),
        decreases n - i,
    {
        let v: i64 = fx_sub(p[i], fx_mul(lr, step[i]));
        p.set(i, v);
        i = i + 1;
    }
    proof {
        assert(p@ =~= descend_s(old(p)@, lr as int, step@));
    }
}

/// The first position of the maximum entry.
pub open spec fn is_first_max(s: Seq<i64>, r: int) -> bool {
    &&& 0 <= r < s.len()
    &&& forall|j: int| 0 <= j < s.len() ==> s[j] <= s[r]
    &&& forall|j: int| 0 <= j < r ==> s[j] < s[r]
}

/// The first position of the maximum is unique.
pub proof fn lemma_first_max_unique(s: Seq<i64>, i: int, j: int)
    requires
        is_first_max(s, i),
        is_first_max(s, j),
    ensures
        i == j,
{
    if i < j {
        assert(s[i] < s[j]);
        assert(s[j] <= s[i]);
    }
    if j < i {
        assert(s[j] < s[i]);
        assert(s[i] <= s[j]);
    }
}

pub fn argmax(v: &Vec<i64>) -> (r: usize)
    requires
        v@.len() >= 1,
    ensures
        is_first_max(v@, r as int),
{
    let mut best: usize = 0;
    let mut i: usize = 1;
    while i < v.len()
        invariant
            1 <= i <= v@.len(),
            best < i,
            forall|j: int| 0 <= j < i ==> v@[j] <= v@[best as int],
            forall|j: int| 0 <= j < best ==> v@[j] < v@[best as int],
        decreases v@.len() - i,
    {
        if v[i] > v[best] {
            best = i;
        }
        i = i + 1;
    }
    best
}

/// A uniformly random position among the true entries of a mask.
pub fn get_random_true_entry(mask: &Vec<bool>) -> (r: usize)
    requires
        exists|i: int| 0 <= i < mask@.len() && mask@[i],
    ensures
        r < mask@.len(),
        mask@[r as int],
{
    let n: usize = mask.len();
    let mut idxs: Vec<usize> = Vec::new();
    let mut i: usize = 0;
    while i < n
        invariant
            i <= n,
            n == mask@.len(),
            forall|t: int| 0 <= t < idxs@.len() ==> idxs@[t] < n && mask@[#[trigger] idxs@[t] as int],
            idxs@.len() == 0 ==> forall|j: int| 0 <= j < i ==> !mask@[j],
        decreases n - i,
    {
        if mask[i] {
            idxs.push(i);
        }
        i = i + 1;
    }
    let k: u64 = crate::rng::rand_below(idxs.len() as u64);
    let r: usize = idxs[k as usize];
    r
}

} // verus!