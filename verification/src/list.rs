//! A list of numbers, each cell boxed behind the one before.

use vstd::prelude::*;

verus! {

/// A list: a number and the rest, or nothing.
#[derive(Debug)]
pub enum List {
    Cons(i32, Box<List>),
    Nil,
}

impl List {
    /// The numbers of the list, first to last.
    pub open spec fn items(&self) -> Seq<i32>
        decreases self,
    {
        match self {
            List::Cons(value, next) => seq![*value] + next.items(),
            List::Nil => Seq::empty(),
        }
    }

    /// The list with `head` before all it held.
    pub fn insert_head(self, head: i32) -> (list: List)
        ensures
            list.items() == seq![head] + self.items(),
    {
        List::Cons(head, Box::new(self))
    }

    /// The list with `tail` after all it held.
    pub fn insert_tail(self, tail: i32) -> (list: List)
        ensures
            list.items() == self.items().push(tail),
        decreases self,
    {
        match self {
            List::Cons(v, next) => {
                let rest = next.insert_tail(tail);
                assert(seq![v] + next.items().push(tail) =~= (seq![v] + next.items()).push(tail));
                List::Cons(v, Box::new(rest))
            },
            List::Nil => {
                assert(seq![tail] + Seq::<i32>::empty() =~= Seq::<i32>::empty().push(tail));
                List::Cons(tail, Box::new(List::Nil))
            },
        }
    }

    /// The first number of a list that is not empty.
    pub fn head(&self) -> (first: i32)
        requires
            self.items().len() > 0,
        ensures
            first == self.items()[0],
    {
        match self {
            List::Cons(v, _) => *v,
            List::Nil => 0,
        }
    }

    /// The last number of a list that is not empty.
    pub fn tail(&self) -> (last: i32)
        requires
            self.items().len() > 0,
        ensures
            last == self.items().last(),
        decreases self,
    {
        match self {
            List::Cons(value, next) => {
                if let List::Nil = **next {
                    proof {
                        reveal_with_fuel(List::items, 2);
                    }
                    return *value;
                }
                assert(next.items().len() > 0);
                next.tail()
            },
            List::Nil => 0,
        }
    }
}

/// A box that holds one value.
pub struct MyBox<T>(pub T);

impl<T> MyBox<T> {
    /// A box around `x`.
    pub fn new(x: T) -> (b: MyBox<T>)
        ensures
            b.0 == x,
    {
        MyBox(x)
    }

    /// What the box holds.
    pub fn deref(&self) -> (inner: &T)
        ensures
            *inner == self.0,
    {
        &self.0
    }
}

} // verus!
