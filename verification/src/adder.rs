//! Small sums, rectangles that hold each other, greetings and bounded
//! guesses.

use vstd::prelude::*;
use vstd::string::StringExecFns;

verus! {

/// Adds two numbers whose sum fits the machine word.
pub fn add(left: usize, right: usize) -> (sum: usize)
    requires
        left + right <= usize::MAX,
    ensures
        sum == left + right,
{
    left + right
}

/// Adds two to a number that leaves room for it.
pub fn add_two(v: usize) -> (sum: usize)
    requires
        v + 2 <= usize::MAX,
    ensures
        sum == v + 2,
{
    v + 2
}

/// A rectangle with sides along the axes.
#[derive(Clone, Copy, Debug, PartialEq, Eq, Structural)]
pub struct Rectangle {
    pub width: u32,
    pub height: u32,
}

impl Rectangle {
    /// Whether `other` fits inside `self` without rotation; a rectangle of
    /// the same width or height still fits.
    pub fn can_hold(&self, other: &Rectangle) -> (fits: bool)
        ensures
            fits == (self.width >= other.width && self.height >= other.height),
    {
        self.width >= other.width && self.height >= other.height
    }
}

/// A greeting that names the person greeted.
pub fn greeting(name: &str) -> (text: String)
    ensures
        text@ == "Hello! "@ + name@,
{
    String::from_str("Hello! ").concat(name)
}

/// A guess between 1 and 100, both included.
pub struct Guess {
    value: i32,
}

impl Guess {
    #[verifier::type_invariant]
    spec fn in_range(self) -> bool {
        1 <= self.value <= 100
    }

    /// The number guessed.
    pub closed spec fn spec_value(&self) -> i32 {
        self.value
    }

    /// A guess of `value`, which lies between 1 and 100.
    pub fn new(value: i32) -> (guess: Guess)
        requires
            1 <= value <= 100,
        ensures
            guess.spec_value() == value,
    {
        Guess { value }
    }

    /// A guess of `value`, which is at least 1 and at most 100.
    pub fn new_v2(value: i32) -> (guess: Guess)
        requires
            value >= 1,
            value <= 100,
        ensures
            guess.spec_value() == value,
    {
        Guess { value }
    }

    /// The number guessed, between 1 and 100.
    #[verifier::when_used_as_spec(spec_value)]
    pub fn value(&self) -> (value: i32)
        ensures
            value == self.spec_value(),
            1 <= value <= 100,
    {
        proof {
            use_type_invariant(self);
        }
        self.value
    }
}

} // verus!
