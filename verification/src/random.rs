//! The source of chance: a seedable generator handed in by the caller.
use rand::Rng;
use vstd::prelude::*;

verus! {

/// The standard generator of `rand`, whose state is opaque here.
#[verifier::external_type_specification]
#[verifier::external_body]
pub struct ExStdRng(rand::rngs::StdRng);

/// Draws one integer from `lo..hi` with `rand::Rng::gen_range`.
///
/// Trusted: the generator is taken to return a member of the half-open range it is given,
/// which is all its documentation promises of a single draw; no two draws are related.
#[verifier::external_body]
pub(crate) fn draw_range(rng: &mut rand::rngs::StdRng, lo: i64, hi: i64) -> (r: i64)
    requires
        lo < hi,
    ensures
        lo <= r < hi,
{
    rng.gen_range(lo..hi)
}

} // verus!
