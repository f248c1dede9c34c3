use vstd::prelude::*;

verus! {

/// The thread-local generator of the `rand` crate. Nothing is known of its state.
#[verifier::external_type_specification]
#[verifier::external_body]
pub struct ExThreadRng(rand::rngs::ThreadRng);

/// Draws a number below `bound` with `rand::Rng::gen_range` on the range
/// `0..bound`.
///
/// Taken on trust: the call returns a number of the range it was given. It
/// panics on an empty range, which `requires` keeps out. Which number comes
/// back is left open, so two draws may differ.
#[verifier::external_body]
pub(crate) fn draw_below(rng: &mut rand::rngs::ThreadRng, bound: usize) -> (drawn: usize)
    requires
        bound > 0,
    ensures
        drawn < bound,
{
    rand::Rng::gen_range(rng, 0..bound)
}

} // verus!
