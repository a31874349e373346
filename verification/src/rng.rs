use vstd::prelude::*;

verus! {

/// Relies on `rand::Rng::gen_range` over the half-open range `0..n` on
/// the thread-local generator `rand::thread_rng`: the draw lies in
/// `[0, n)`, and the call panics only on an empty range, which the
/// precondition rules out. Nothing more can be promised of a random
/// draw, so callers must hold for every value below `n`.
#[verifier::external_body]
pub(crate) fn draw_below(n: usize) -> (r: usize)
    requires
        1 <= n,
    ensures
        r < n,
{
    rand::Rng::gen_range(&mut rand::thread_rng(), 0..n)
}

} // verus!
