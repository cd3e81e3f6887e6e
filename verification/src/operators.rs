//! Functions handed to functions, and `+` on types of one's own.

use std::ops::Add;
use vstd::prelude::*;
use vstd::std_specs::ops::AddSpecImpl;
use vstd::string::StringExecFns;

verus! {

/// One more than `x`.
pub fn add_one(x: i32) -> (y: i32)
    requires
        x < i32::MAX,
    ensures
        y == x + 1,
{
    x + 1
}

/// Applies `f` to `arg` twice and adds the results.
pub fn do_twice<F: Fn(i32) -> i32>(f: F, arg: i32) -> (sum: i32)
    requires
        f.requires((arg,)),
        forall|a: i32, b: i32|
            f.ensures((arg,), a) && f.ensures((arg,), b) ==> i32::MIN <= a + b <= i32::MAX,
    ensures
        exists|a: i32, b: i32| f.ensures((arg,), a) && f.ensures((arg,), b) && sum == a + b,
{
    let a = f(arg);
    let b = f(arg);
    a + b
}

/// A function that adds one to a number that leaves room for it.
pub fn returns_closure() -> (f: impl Fn(i32) -> i32)
    ensures
        forall|x: i32| x < i32::MAX ==> f.requires((x,)),
        forall|x: i32, y: i32| f.ensures((x,), y) ==> y == x + 1,
{
    |x: i32| -> (y: i32)
        requires
            x < i32::MAX,
        ensures
            y == x + 1,
        { x + 1 }
}

/// A point of the plane.
#[derive(Clone, Copy, Debug, PartialEq, Eq, Structural)]
pub struct Point {
    pub x: i32,
    pub y: i32,
}

impl Add for Point {
    type Output = Point;

    /// The sum, coordinate by coordinate.
    fn add(self, other: Point) -> (sum: Point) {
        Point { x: self.x + other.x, y: self.y + other.y }
    }
}

impl AddSpecImpl for Point {
    open spec fn obeys_add_spec() -> bool {
        true
    }

    open spec fn add_req(self, other: Point) -> bool {
        &&& i32::MIN <= self.x + other.x <= i32::MAX
        &&& i32::MIN <= self.y + other.y <= i32::MAX
    }

    open spec fn add_spec(self, other: Point) -> Point {
        Point { x: (self.x + other.x) as i32, y: (self.y + other.y) as i32 }
    }
}

/// A length in millimeters.
#[derive(Clone, Copy, Debug, PartialEq, Eq, Structural)]
pub struct Millimeters(pub u32);

/// A length in meters.
#[derive(Clone, Copy, Debug, PartialEq, Eq, Structural)]
pub struct Meters(pub u32);

impl Add<Meters> for Millimeters {
    type Output = Millimeters;

    /// The sum, in millimeters.
    fn add(self, other: Meters) -> (sum: Millimeters) {
        Millimeters(self.0 + other.0 * 1000)
    }
}

impl AddSpecImpl<Meters> for Millimeters {
    open spec fn obeys_add_spec() -> bool {
        true
    }

    open spec fn add_req(self, other: Meters) -> bool {
        self.0 + other.0 * 1000 <= u32::MAX
    }

    open spec fn add_spec(self, other: Meters) -> Millimeters {
        Millimeters((self.0 + other.0 * 1000) as u32)
    }
}

/// Animals, by what their young are called.
pub trait Animal {
    /// What the young of this animal are called.
    fn baby_name() -> String;
}

/// A dog.
pub struct Dog;

impl Dog {
    /// The name of this dog's puppy.
    pub fn baby_name() -> (name: String)
        ensures
            name@ == "Spot"@,
    {
        String::from_str("Spot")
    }
}

impl Animal for Dog {
    /// What the young of a dog are called.
    fn baby_name() -> (name: String)
        ensures
            name@ == "puppy"@,
    {
        String::from_str("puppy")
    }
}

} // verus!
