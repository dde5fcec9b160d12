use rand::Rng;
use vstd::prelude::*;

verus! {

/// Draws a number from `low..=high` with `rand::thread_rng().gen_range`.
///
/// Trusted: rand documents that `gen_range` returns a value of the given
/// range and panics only when the range is empty, which `requires` rules
/// out. Which value comes back is left open: it is chance.
#[verifier::external_body]
pub(crate) fn draw_between(low: u8, high: u8) -> (drawn: u8)
    requires
        low <= high,
    ensures
        low <= drawn <= high,
{
    rand::thread_rng().gen_range(low..=high)
}

} // verus!
