//! The random source. Nothing is proved of the generator; what is claimed
//! of it is written on each item below.

use vstd::prelude::*;
use rand::rngs::StdRng;

verus! {

/// `rand::rngs::StdRng`, carried through as an opaque value.
#[verifier::external_type_specification]
#[verifier::external_body]
pub struct ExStdRng(StdRng);

/// Draws an integer with `rand::Rng::gen_range` on the inclusive range
/// `low..=high`. Believed of it: the draw lies in the range. The range must
/// not be empty, on which `gen_range` panics.
#[verifier::external_body]
pub(crate) fn draw_between(rng: &mut StdRng, low: i64, high: i64) -> (r: i64)
    requires
        low <= high,
    ensures
        low <= r <= high,
{
    rand::Rng::gen_range(rng, low..=high)
}

} // verus!
