use vstd::prelude::*;

verus! {

/// Sources of randomness, drawn from the `rand` crate.
///
/// Exploration and weight initialization need random draws; everything the
/// library concludes from a draw is proved for every value the contracts
/// below admit, so nothing rests on the distribution.

/// Relies on rand::random::<u32>: draws an arbitrary 32-bit value.
/// Nothing is promised of the value; callers treat any outcome alike.
#[verifier::external_body]
pub(crate) fn rand_u32() -> u32 {
    rand::random::<u32>()
}

/// Relies on rand::Rng::gen_range over `0..n`: the draw lies in the
/// half-open range, which is non-empty because `n >= 1`.
#[verifier::external_body]
pub(crate) fn rand_below(n: u64) -> (r: u64)
    requires
        1 <= n,
    ensures
        r < n,
{
    rand::Rng::gen_range(&mut rand::thread_rng(), 0..n)
}

} // verus!
