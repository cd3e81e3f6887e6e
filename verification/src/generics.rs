//! The largest item of a list, and points of any coordinates.

use crate::order::{at_least, comparable, exceeds};
use vstd::prelude::*;

verus! {

/// The position that a scan of the first `upto` items of `list` ends on:
/// it starts on the first item and moves to each item that exceeds the one
/// it is on.
pub open spec fn largest_index<T: PartialOrd>(list: Seq<T>, upto: int) -> int
    decreases upto,
{
    if upto <= 1 {
        0
    } else {
        let best = largest_index(list, upto - 1);
        if exceeds(list[upto - 1], list[best]) {
            upto - 1
        } else {
            best
        }
    }
}

/// The scan ends on one of the items it has seen.
pub proof fn lemma_largest_index_in_range<T: PartialOrd>(list: Seq<T>, upto: int)
    requires
        1 <= upto,
    ensures
        0 <= largest_index(list, upto) < upto,
    decreases upto,
{
    if upto > 1 {
        lemma_largest_index_in_range(list, upto - 1);
    }
}

/// Among numbers, no item that the scan has seen exceeds the one it ends
/// on, and the scan ends on the first of the largest.
pub proof fn lemma_largest_number(list: Seq<i32>, upto: int)
    requires
        1 <= upto <= list.len(),
    ensures
        forall|i: int| 0 <= i < upto ==> #[trigger] list[i] <= list[largest_index(list, upto)],
        forall|i: int|
            0 <= i < largest_index(list, upto) ==> #[trigger] list[i] < list[largest_index(
                list,
                upto,
            )],
    decreases upto,
{
    if upto > 1 {
        lemma_largest_number(list, upto - 1);
        lemma_largest_index_in_range(list, upto - 1);
    }
}

/// The largest item of a list that is not empty: the item that a scan from
/// the front ends on.
pub fn largest<T: PartialOrd>(list: &[T]) -> (found: &T)
    requires
        list@.len() > 0,
    ensures
        comparable::<T>() ==> *found == list@[largest_index(list@, list@.len() as int)],
        exists|i: int| 0 <= i < list@.len() && *found == list@[i],
{
    let mut best: usize = 0;
    let mut k: usize = 1;
    while k < list.len()
        invariant
            1 <= k <= list.len(),
            best < k,
            comparable::<T>() ==> best == largest_index(list@, k as int),
        decreases list.len() - k,
    {
        if list[k] > list[best] {
            best = k;
        }
        k += 1;
    }
    &list[best]
}

/// A point whose coordinates are of one type.
pub struct Point<T> {
    pub x: T,
    pub y: T,
}

impl<T> Point<T> {
    /// The first coordinate.
    pub fn x(&self) -> (x: &T)
        ensures
            *x == self.x,
    {
        &self.x
    }

    /// The second coordinate.
    pub fn y(&self) -> (y: &T)
        ensures
            *y == self.y,
    {
        &self.y
    }
}

/// A point whose coordinates may be of two types.
pub struct Point2<X1, Y1> {
    pub x: X1,
    pub y: Y1,
}

impl<X1, Y1> Point2<X1, Y1> {
    /// The point with the first coordinate of `self` and the second of
    /// `other`.
    pub fn mixup<X2, Y2>(self, other: Point2<X2, Y2>) -> (mixed: Point2<X1, Y2>)
        ensures
            mixed.x == self.x,
            mixed.y == other.y,
    {
        Point2 { x: self.x, y: other.y }
    }
}

/// A pair of values of one type.
pub struct Pair<T> {
    pub x: T,
    pub y: T,
}

impl<T> Pair<T> {
    /// The pair of `x` and `y`.
    pub fn new(x: T, y: T) -> (pair: Pair<T>)
        ensures
            pair.x == x,
            pair.y == y,
    {
        Pair { x, y }
    }
}

impl<T: PartialOrd> Pair<T> {
    /// The larger member of the pair: the first where it is at least the
    /// second, else the second.
    pub fn larger(&self) -> (member: &T)
        ensures
            *member == self.x || *member == self.y,
            comparable::<T>() ==> *member == if at_least(self.x, self.y) {
                self.x
            } else {
                self.y
            },
    {
        if self.x >= self.y {
            &self.x
        } else {
            &self.y
        }
    }
}

/// Splits a slice in two at `mid`: the first `mid` items, and the rest.
/// What is written through either part is written to the slice.
pub fn split_at_mut(values: &mut [i32], mid: usize) -> (parts: (&mut [i32], &mut [i32]))
    requires
        mid <= old(values)@.len(),
    ensures
        parts.0@ == old(values)@.subrange(0, mid as int),
        parts.1@ == old(values)@.subrange(mid as int, old(values)@.len() as int),
        final(values)@ == final(parts.0)@ + final(parts.1)@,
{
    values.split_at_mut(mid)
}

} // verus!
