use vstd::prelude::*;
use crate::vecops::all_fx_ok;

verus! {

/// Dense rank-1 to rank-4 arrays of fixed-point values: a shape and the
/// row-major data. Dimensions are capped at 32768 per axis, which keeps
/// every index computation inside the machine word.

/// The largest extent one axis may have.
pub const DIM_MAX: usize = 32768;

/// The product of the extents.
pub open spec fn prod(s: Seq<usize>) -> nat
    decreases s.len(),
{
    if s.len() == 0 {
        1
    } else {
        (s[0] * prod(s.skip(1))) as nat
    }
}

/// A shape is well formed: rank one to four, each axis in [1, DIM_MAX].
pub open spec fn dims_ok(s: Seq<usize>) -> bool {
    &&& 1 <= s.len() <= 4
    &&& forall|i: int| 0 <= i < s.len() ==> 1 <= #[trigger] s[i] <= DIM_MAX
}

/// An upper bound by rank: the product of k capped axes.
pub open spec fn pw_dim(k: nat) -> int
    decreases k,
{
    if k == 0 {
        1
    } else {
        (DIM_MAX as int) * pw_dim((k - 1) as nat)
    }
}

pub proof fn lemma_prod_bound(s: Seq<usize>)
    requires
        forall|i: int| 0 <= i < s.len() ==> 1 <= #[trigger] s[i] <= DIM_MAX,
    ensures
        1 <= prod(s) <= pw_dim(s.len()),
    decreases s.len(),
{
    if s.len() == 0 {
    } else {
        lemma_prod_bound(s.skip(1));
        assert(1 <= s[0] * prod(s.skip(1)) && s[0] * prod(s.skip(1)) <= (DIM_MAX as int) * pw_dim(
            (s.len() - 1) as nat,
        )) by (nonlinear_arith)
            requires
                1 <= s[0] <= DIM_MAX as int,
                1 <= prod(s.skip(1)) <= pw_dim((s.len() - 1) as nat),
                0 <= pw_dim((s.len() - 1) as nat),
        ;
    }
}

pub proof fn lemma_pw_dim4()
    ensures
        pw_dim(1) == 0x8000,
        pw_dim(2) == 0x40000000,
        pw_dim(3) == 0x200000000000,
        pw_dim(4) == 0x1000000000000000,
{
    reveal_with_fuel(pw_dim, 5);
}

/// Compute the element count of a shape, refusing shapes outside the rank
/// and axis caps or whose product cannot be held in a machine word.
pub fn prod_checked(shape: &Vec<usize>) -> (r: Option<usize>)
    ensures
        r is Some <==> dims_ok(shape@) && prod(shape@) <= usize::MAX,
        r is Some ==> r->0 == prod(shape@) && r->0 >= 1,
{
    let n: usize = shape.len();
    if n < 1 || n > 4 {
        return None;
    }
    let mut i: usize = 0;
    while i < n
        invariant
            i <= n,
            n == shape@.len(),
            forall|j: int| 0 <= j < i ==> 1 <= #[trigger] shape@[j] <= DIM_MAX,
        decreases n - i,
    {
        if shape[i] < 1 || shape[i] > DIM_MAX {
            return None;
        }
        i = i + 1;
    }
    proof {
        lemma_prod_bound(shape@);
        lemma_pw_dim4();
        if shape@.len() == 1 {
        } else if shape@.len() == 2 {
        } else if shape@.len() == 3 {
        }
        assert(pw_dim(shape@.len()) <= 0x1000000000000000);
    }
    let mut p: u64 = 1;
    let mut k: usize = n;
    while k > 0
        invariant
            k <= n,
            1 <= n <= 4,
            n == shape@.len(),
            forall|j: int| 0 <= j < n ==> 1 <= #[trigger] shape@[j] <= DIM_MAX,
            p == prod(shape@.skip(k as int)),
            p <= 0x1000000000000000,
        decreases k,
    {
        proof {
            lemma_prod_bound(shape@.skip(k as int - 1));
            lemma_pw_dim4();
            let skl = shape@.skip(k as int - 1).len();
            assert(skl == 1 || skl == 2 || skl == 3 || skl == 4);
            assert(pw_dim(skl) <= 0x1000000000000000);
            assert(shape@.skip(k as int - 1).skip(1) =~= shape@.skip(k as int));
            assert(prod(shape@.skip(k as int - 1)) == shape@[k as int - 1] * prod(
                shape@.skip(k as int),
            ));
        }
        p = (shape[k - 1] as u64) * p;
        k = k - 1;
    }
    proof {
        assert(shape@.skip(0) =~= shape@);
    }
    if p > (usize::MAX as u64) {
        None
    } else {
        Some(p as usize)
    }
}

/// A dense array: the common currency between the layers.
pub struct Tensor {
    pub shape: Vec<usize>,
    pub data: Vec<i64>,
}

impl Tensor {
    pub open spec fn wf(&self) -> bool {
        &&& dims_ok(self.shape@)
        &&& self.data@.len() == prod(self.shape@)
        &&& all_fx_ok(self.data@)
    }

    /// Build a tensor, rejecting a shape that the data does not fill or
    /// whose axes are out of range.
    pub fn new(shape: Vec<usize>, data: Vec<i64>) -> (r: Result<Tensor, ()>)
        requires
            all_fx_ok(data@),
        ensures
            r is Ok <==> dims_ok(shape@) && prod(shape@) == data@.len(),
            r is Ok ==> r->Ok_0.wf() && r->Ok_0.shape@ == shape@ && r->Ok_0.data@ == data@,
    {
        let dl: usize = data.len();
        match prod_checked(&shape) {
            Some(p) => {
                if p == dl {
                    Ok(Tensor { shape, data })
                } else {
                    Err(())
                }
            },
            None => Err(()),
        }
    }
}

} // verus!