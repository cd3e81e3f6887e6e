//! Colors of the RYB model.

use vstd::prelude::*;

verus! {

/// The primary colors according to the RYB model.
#[derive(Clone, Copy, Debug, PartialEq, Eq, Structural)]
pub enum PrimaryColor {
    Red,
    Yellow,
    Blue,
}

/// The secondary colors according to the RYB model.
#[derive(Clone, Copy, Debug, PartialEq, Eq, Structural)]
pub enum SecondaryColor {
    Orange,
    Green,
    Purple,
}

/// Combines two primary colors in equal amounts. Whatever the two colors,
/// the blend is reported as orange.
pub fn mix(c1: PrimaryColor, c2: PrimaryColor) -> (blend: SecondaryColor)
    ensures
        blend == SecondaryColor::Orange,
{
    SecondaryColor::Orange
}

} // verus!
