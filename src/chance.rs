use rand::seq::SliceRandom;
use rand::Rng;
use vstd::prelude::*;

verus! {

/// Relies on rand's `SliceRandom::choose` (with the thread-local generator):
/// `None` exactly when the slice is empty, otherwise one of its elements.
#[verifier::external_body]
pub(crate) fn choose_from(options: &[u8]) -> (r: Option<u8>)
    ensures
        options@.len() == 0 <==> r is None,
        r matches Some(p) ==> options@.contains(p),
{
    options.choose(&mut rand::thread_rng()).copied()
}

/// Relies on rand's `Rng::gen_range` over an inclusive range (with the
/// thread-local generator): a value within the bounds; it panics only on an
/// empty range.
#[verifier::external_body]
pub(crate) fn draw_between(lo: u32, hi: u32) -> (r: u32)
    requires
        lo <= hi,
    ensures
        lo <= r <= hi,
{
    rand::thread_rng().gen_range(lo..=hi)
}

} // verus!
