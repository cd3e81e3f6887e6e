//! Borrowed texts: the longer of two, and an excerpt of one.

use crate::text::{position_of, until};
use vstd::prelude::*;

verus! {

/// The longer of two texts by their length in bytes; the second where they
/// are equally long.
pub fn longest<'a>(x: &'a str, y: &'a str) -> (longer: &'a str)
    ensures
        longer@ == if x.len() > y.len() {
            x@
        } else {
            y@
        },
{
    if x.len() > y.len() {
        x
    } else {
        y
    }
}

/// A part of a text, borrowed from it.
pub struct ImportantExcerpt<'a> {
    pub part: &'a str,
}

/// The first sentence of `novel`: what stands before its first full stop,
/// or all of it where it has none.
pub fn first_sentence<'a>(novel: &'a str) -> (excerpt: ImportantExcerpt<'a>)
    ensures
        excerpt.part@ == novel@.take(position_of(novel@, '.')),
{
    ImportantExcerpt { part: until(novel, '.') }
}

} // verus!
