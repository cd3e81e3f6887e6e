//! A list of numbers that keeps its sum up to date, for an average at hand.

use vstd::prelude::*;

verus! {

/// The sum of some numbers.
pub open spec fn total(list: Seq<i32>) -> int
    decreases list.len(),
{
    if list.len() == 0 {
        0
    } else {
        total(list.drop_last()) + list.last()
    }
}

/// The sum of some numbers is no farther from zero than all of them could
/// bring it.
pub proof fn lemma_total_bounds(list: Seq<i32>)
    ensures
        -0x8000_0000 * list.len() <= total(list) <= 0x7fff_ffff * list.len(),
    decreases list.len(),
{
    if list.len() > 0 {
        lemma_total_bounds(list.drop_last());
    }
}

/// A list of numbers with their sum. The average is the sum divided by the
/// number of items; of no items there is none.
pub struct AveragedCollection {
    list: Vec<i32>,
    sum: i128,
}

impl AveragedCollection {
    #[verifier::type_invariant]
    spec fn cached(self) -> bool {
        self.sum == total(self.list@)
    }

    /// The numbers held, oldest first.
    pub closed spec fn items(&self) -> Seq<i32> {
        self.list@
    }

    /// An empty collection.
    pub fn new() -> (c: AveragedCollection)
        ensures
            c.items() == Seq::<i32>::empty(),
    {
        AveragedCollection { list: Vec::new(), sum: 0 }
    }

    /// Adds `value` at the end.
    pub fn add(&mut self, value: i32)
        ensures
            final(self).items() == old(self).items().push(value),
    {
        proof {
            assert(self.list@.push(value).drop_last() =~= self.list@);
        }
        let mut taken = AveragedCollection::new();
        std::mem::swap(self, &mut taken);
        let held = taken.list.len();
        proof {
            use_type_invariant(&taken);
            lemma_total_bounds(taken.list@);
            assert(taken.list@.len() == held);
        }
        let AveragedCollection { mut list, sum } = taken;
        list.push(value);
        *self = AveragedCollection { list, sum: sum + value as i128 };
    }

    /// Takes the newest number away, if there is one.
    pub fn remove(&mut self) -> (removed: Option<i32>)
        ensures
            old(self).items().len() == 0 ==> removed.is_none() && final(self).items() == old(self).items(),
            old(self).items().len() > 0 ==> removed == Some(old(self).items().last()) && final(self).items() == old(self).items().drop_last(),
    {
        let mut taken = AveragedCollection::new();
        std::mem::swap(self, &mut taken);
        let held = taken.list.len();
        proof {
            use_type_invariant(&taken);
            lemma_total_bounds(taken.list@);
            assert(taken.list@.len() == held);
        }
        let AveragedCollection { mut list, sum } = taken;
        let value = list.pop();
        let sum = match value {
            Some(v) => sum - v as i128,
            None => sum,
        };
        proof {
            if value.is_some() {
                assert(list@ =~= old(self).list@.drop_last());
            } else {
                assert(list@ =~= old(self).list@);
            }
        }
        *self = AveragedCollection { list, sum };
        value
    }

    /// The sum of the numbers held.
    pub fn sum(&self) -> (sum: i128)
        ensures
            sum == total(self.items()),
    {
        proof {
            use_type_invariant(self);
        }
        self.sum
    }

    /// How many numbers are held.
    pub fn len(&self) -> (n: usize)
        ensures
            n == self.items().len(),
    {
        self.list.len()
    }
}

} // verus!
