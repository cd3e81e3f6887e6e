//! Sorting a list of numbers and counting how often each occurs.

use std::collections::HashMap;
use vstd::prelude::*;

verus! {

/// Whether `s` is in ascending order.
pub open spec fn sorted(s: Seq<i32>) -> bool {
    forall|i: int, j: int| 0 <= i <= j < s.len() ==> s[i] <= s[j]
}

/// Every element of a sequence occurs in it as often as in any sequence
/// with the same elements, so what holds of all elements of one holds of
/// all elements of the other.
proof fn lemma_same_elements(a: Seq<i32>, b: Seq<i32>, i: int)
    requires
        a.to_multiset() == b.to_multiset(),
        0 <= i < a.len(),
    ensures
        b.contains(a[i]),
{
    broadcast use vstd::seq_lib::group_to_multiset_ensures;

    assert(a.contains(a[i]));
    assert(a.to_multiset().count(a[i]) > 0);
}

/// A sorted list, a pivot no smaller than any of it and a sorted list of
/// larger numbers make a sorted list.
proof fn lemma_sorted_join(low: Seq<i32>, pivot: i32, high: Seq<i32>)
    requires
        sorted(low),
        sorted(high),
        forall|i: int| 0 <= i < low.len() ==> low[i] <= pivot,
        forall|i: int| 0 <= i < high.len() ==> pivot < high[i],
    ensures
        sorted(low.push(pivot) + high),
{
    let all = low.push(pivot) + high;
    assert forall|i: int, j: int| 0 <= i <= j < all.len() implies all[i] <= all[j] by {
        if j < low.len() {
            assert(all[i] == low[i] && all[j] == low[j]);
        } else if i > low.len() {
            assert(all[i] == high[i - low.len() - 1] && all[j] == high[j - low.len() - 1]);
        } else if i == low.len() {
            if j > low.len() {
                assert(all[j] == high[j - low.len() - 1]);
            }
        } else {
            assert(all[i] == low[i]);
            if j > low.len() {
                assert(all[j] == high[j - low.len() - 1]);
            }
        }
    }
}

/// A number occurs in a sequence at most as often as the sequence is long.
proof fn lemma_count_le_len(s: Seq<i32>, n: i32)
    ensures
        s.to_multiset().count(n) <= s.len(),
    decreases s.len(),
{
    if s.len() > 0 {
        lemma_count_le_len(s.drop_last(), n);
        assert(s =~= s.drop_last().push(s.last()));
        vstd::seq_lib::to_multiset_build(s.drop_last(), s.last());
    } else {
        assert(s.to_multiset().len() == 0) by {
            broadcast use vstd::seq_lib::group_to_multiset_ensures;

        }
    }
}

/// Sorts `v` in ascending order: the result holds the numbers of `v`, each
/// as often as `v` does.
pub fn quicksort(v: Vec<i32>) -> (r: Vec<i32>)
    ensures
        sorted(r@),
        r@.to_multiset() == v@.to_multiset(),
        r@.len() == v@.len(),
    decreases v@.len(),
{
    broadcast use vstd::seq_lib::group_to_multiset_ensures;

    if v.len() == 0 {
        return v;
    }
    let x = v[0];
    let mut y: Vec<i32> = Vec::new();
    let mut z: Vec<i32> = Vec::new();
    let ghost rest = v@.subrange(1, v@.len() as int);
    let mut k: usize = 1;
    proof {
        assert(rest.take(0) =~= Seq::<i32>::empty());
    }
    while k < v.len()
        invariant
            1 <= k <= v.len(),
            rest == v@.subrange(1, v@.len() as int),
            x == v@[0],
            y@.len() + z@.len() == k - 1,
            y@.to_multiset().add(z@.to_multiset()) == rest.take(k - 1).to_multiset(),
            forall|i: int| 0 <= i < y@.len() ==> y@[i] <= x,
            forall|i: int| 0 <= i < z@.len() ==> x < z@[i],
        decreases v.len() - k,
    {
        let e = v[k];
        let ghost (y0, z0) = (y@, z@);
        proof {
            assert(rest.take(k as int) =~= rest.take(k - 1).push(e));
            vstd::seq_lib::to_multiset_build(rest.take(k - 1), e);
            vstd::seq_lib::to_multiset_build(y0, e);
            vstd::seq_lib::to_multiset_build(z0, e);
        }
        if e <= x {
            y.push(e);
            assert(y@.to_multiset().add(z@.to_multiset()) =~= y0.to_multiset().add(
                z0.to_multiset(),
            ).insert(e));
        } else {
            z.push(e);
            assert(y@.to_multiset().add(z@.to_multiset()) =~= y0.to_multiset().add(
                z0.to_multiset(),
            ).insert(e));
        }
        k += 1;
    }
    let ghost (y0, z0) = (y@, z@);
    let mut low = quicksort(y);
    let mut high = quicksort(z);
    proof {
        assert(rest.take(rest.len() as int) =~= rest);
        assert forall|i: int| 0 <= i < low@.len() implies low@[i] <= x by {
            lemma_same_elements(low@, y0, i);
        }
        assert forall|i: int| 0 <= i < high@.len() implies x < high@[i] by {
            lemma_same_elements(high@, z0, i);
        }
        lemma_sorted_join(low@, x, high@);
        vstd::seq_lib::lemma_multiset_commutative(low@.push(x), high@);
        assert(v@ =~= seq![x] + rest);
        vstd::seq_lib::lemma_multiset_commutative(seq![x], rest);
        assert(seq![x] =~= Seq::<i32>::empty().push(x));
        assert((low@.push(x) + high@).to_multiset() =~= v@.to_multiset());
    }
    low.push(x);
    low.append(&mut high);
    low
}

/// How often each number of `v` occurs in it. A number that does not occur
/// has no entry.
pub fn count_list(v: &Vec<i32>) -> (map: HashMap<i32, i32>)
    requires
        v@.len() <= i32::MAX,
    ensures
        forall|n: i32| map@.contains_key(n) <==> v@.contains(n),
        forall|n: i32| #[trigger] map@.contains_key(n) ==> map@[n] == v@.to_multiset().count(n),
{
    broadcast use vstd::seq_lib::group_to_multiset_ensures;
    broadcast use vstd::std_specs::hash::group_hash_axioms;

    let mut map: HashMap<i32, i32> = HashMap::new();
    let mut k: usize = 0;
    proof {
        assert(v@.take(0) =~= Seq::<i32>::empty());
    }
    while k < v.len()
        invariant
            k <= v.len(),
            v@.len() <= i32::MAX,
            forall|n: i32| map@.contains_key(n) <==> v@.take(k as int).contains(n),
            forall|n: i32| #[trigger]
                map@.contains_key(n) ==> map@[n] == v@.take(k as int).to_multiset().count(n),
        decreases v.len() - k,
    {
        let l = v[k];
        let ghost seen = v@.take(k as int);
        let ghost next = v@.take(k + 1);
        proof {
            assert(next =~= seen.push(l));
            vstd::seq_lib::to_multiset_build(seen, l);
            lemma_count_le_len(seen, l);
            seen.to_multiset_ensures();
            next.to_multiset_ensures();
        }
        let ghost before = map@;
        let count = match map.get(&l) {
            Some(c) => *c,
            None => 0,
        };
        map.insert(l, count + 1);
        proof {
            assert(map@ == before.insert(l, (count + 1) as i32));
            assert forall|n: i32| #[trigger] map@.contains_key(n) implies map@[n]
                == next.to_multiset().count(n) by {
                if n != l {
                    assert(before.contains_key(n));
                }
            }
            assert forall|n: i32| map@.contains_key(n) <==> next.contains(n) by {
                if n == l {
                    assert(next[k as int] == l);
                } else if seen.contains(n) {
                    let i = choose|i: int| 0 <= i < seen.len() && seen[i] == n;
                    assert(next[i] == n);
                } else if next.contains(n) {
                    let i = choose|i: int| 0 <= i < next.len() && next[i] == n;
                    assert(seen[i] == n);
                }
            }
        }
        k += 1;
    }
    proof {
        assert(v@.take(k as int) =~= v@);
    }
    map
}

} // verus!
