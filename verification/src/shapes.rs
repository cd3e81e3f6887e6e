//! Rectangles: their area and whether one holds another.

use vstd::prelude::*;

verus! {

/// A rectangle with sides along the axes.
#[derive(Clone, Copy, Debug, PartialEq, Eq, Structural)]
pub struct Rectangle {
    pub width: u32,
    pub height: u32,
}

/// The area of `r`, which fits 32 bits.
pub fn area(r: &Rectangle) -> (a: u64)
    requires
        r.width * r.height <= u32::MAX,
    ensures
        a == r.width * r.height,
{
    let product: u32 = r.width * r.height;
    product as u64
}

impl Rectangle {
    /// The area, which fits 32 bits.
    pub fn area(&self) -> (a: u32)
        requires
            self.width * self.height <= u32::MAX,
        ensures
            a == self.width * self.height,
    {
        self.width * self.height
    }

    /// Whether the rectangle has a width at all.
    pub fn width(&self) -> (wide: bool)
        ensures
            wide == (self.width > 0),
    {
        self.width > 0
    }

    /// Whether `other` fits inside `self` without rotation and without
    /// touching its sides.
    pub fn can_hold(&self, other: &Rectangle) -> (fits: bool)
        ensures
            fits == (self.width > other.width && self.height > other.height),
    {
        self.width > other.width && self.height > other.height
    }

    /// The square of the given side.
    pub fn square(size: u32) -> (sq: Rectangle)
        ensures
            sq.width == size,
            sq.height == size,
    {
        Rectangle { width: size, height: size }
    }
}

/// Holding is transitive, and no rectangle holds itself.
pub proof fn lemma_can_hold_is_a_strict_order(a: Rectangle, b: Rectangle, c: Rectangle)
    ensures
        !(a.width > a.width && a.height > a.height),
        (a.width > b.width && a.height > b.height) && (b.width > c.width && b.height > c.height)
            ==> (a.width > c.width && a.height > c.height),
{
}

} // verus!
