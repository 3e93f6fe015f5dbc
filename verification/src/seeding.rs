//! Initial grid seeding: a board whose cells are each alive or dead at
//! random, drawn from the process-wide generator.

use vstd::prelude::*;

verus! {

/// Relies on rand::random::<bool>: one draw from the thread-local
/// generator, alive with probability one half, independent of every
/// other draw. Nothing can be promised of the value itself.
#[verifier::external_body]
fn coin_flip() -> bool {
    rand::random::<bool>()
}

/// A freshly seeded grid: exactly `width * height` cells, each alive
/// or dead at random, drawn independently.
pub fn random_grid(width: usize, height: usize) -> (g: Vec<bool>)
    requires
        width * height <= usize::MAX,
    ensures
        g@.len() == width * height,
{
    let total: usize = width * height;
    let mut g: Vec<bool> = Vec::new();
    let mut i: usize = 0;
    while i < total
        invariant
            i <= total,
            g@.len() == i,
        decreases total - i,
    {
        g.push(coin_flip());
        i += 1;
    }
    g
}

} // verus!
