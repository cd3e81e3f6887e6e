//! Sequences that are produced one item at a time.

use vstd::prelude::*;

verus! {

/// A source of items, handed out one at a time until there are no more.
pub trait Iterator {
    /// What the source hands out.
    type Item;

    /// The next item, or `None` once the source is exhausted.
    fn next(&mut self) -> Option<Self::Item>;
}

} // verus!
