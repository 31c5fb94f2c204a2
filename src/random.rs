//! Random numbers for seeding a grid.
use rand::Rng;
use vstd::prelude::*;

verus! {

/// Relies on rand's `thread_rng().gen::<usize>()`: any usize may come back,
/// and two calls may differ, so nothing is promised of the value.
#[verifier::external_body]
pub(crate) fn draw() -> (r: usize) {
    rand::thread_rng().gen::<usize>()
}

} // verus!
