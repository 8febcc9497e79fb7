//! Where raindrops fall: cells drawn at random from the interior of a grid.

use crate::layout::is_interior;
use rand::distributions::{Distribution, Uniform};
use rand::rngs::ThreadRng;
use vstd::prelude::*;

verus! {

/// The thread-local random number generator of the `rand` crate. Nothing is
/// known of its state.
#[verifier::external_type_specification]
#[verifier::external_body]
pub struct ExThreadRng(rand::rngs::ThreadRng);

/// Draws one number with `rand`'s `Uniform::new(low, high)` and its `sample`.
/// Trusted, not proved: the uniform distribution over the half-open range
/// yields a number that is at least `low` and below `high`. An empty range is
/// left out, since `Uniform::new` panics on one.
#[verifier::external_body]
fn sample_between(rng: &mut ThreadRng, low: usize, high: usize) -> (drawn: usize)
    requires
        low < high,
    ensures
        low <= drawn < high,
{
    Uniform::new(low, high).sample(rng)
}

/// Draws the cell that a raindrop falls on: a column and a row, each drawn
/// uniformly and independently, the column first. Whatever is drawn, the cell
/// lies in the interior of the grid. The grid must have an interior.
pub fn random_interior_cell(rng: &mut ThreadRng, width: usize, height: usize) -> (cell: (
    usize,
    usize,
))
    requires
        width >= 3,
        height >= 3,
    ensures
        is_interior(width as int, height as int, cell.0 as int, cell.1 as int),
{
    let x: usize = sample_between(rng, 1, width - 1);
    let y: usize = sample_between(rng, 1, height - 1);
    (x, y)
}

} // verus!
