use worker_pool::averaged::AveragedCollection;
use worker_pool::collections::{count_list, quicksort};
use worker_pool::generics::{largest, split_at_mut, Pair, Point, Point2};
use worker_pool::list::{List, MyBox};

#[test]
fn quicksort_sorts() {
    let list = vec![4, 2, 5, 7, 8, 3, 3, 5, 7, 8, 8, 5, 3, 2, 4, 7, 8, 7, 4];
    assert_eq!(
        quicksort(list),
        vec![2, 2, 3, 3, 3, 4, 4, 4, 5, 5, 5, 7, 7, 7, 7, 8, 8, 8, 8]
    );
}

#[test]
fn quicksort_edge_cases() {
    assert_eq!(quicksort(vec![]), Vec::<i32>::new());
    assert_eq!(quicksort(vec![1]), vec![1]);
    assert_eq!(quicksort(vec![2, 1]), vec![1, 2]);
    assert_eq!(quicksort(vec![1, 1, 1]), vec![1, 1, 1]);
    assert_eq!(
        quicksort(vec![i32::MAX, 0, i32::MIN, -1]),
        vec![i32::MIN, -1, 0, i32::MAX]
    );
    assert_eq!(quicksort(vec![5, 4, 3, 2, 1]), vec![1, 2, 3, 4, 5]);
}

#[test]
fn count_list_counts() {
    let list = vec![4, 2, 5, 7, 8, 3, 3, 5, 7, 8, 8, 5, 3, 2, 4, 7, 8, 7, 4];
    let map = count_list(&list);
    assert_eq!(map.len(), 6);
    assert_eq!(map.get(&2), Some(&2));
    assert_eq!(map.get(&3), Some(&3));
    assert_eq!(map.get(&4), Some(&3));
    assert_eq!(map.get(&5), Some(&3));
    assert_eq!(map.get(&7), Some(&4));
    assert_eq!(map.get(&8), Some(&4));
    assert_eq!(map.get(&1), None);
    assert!(count_list(&vec![]).is_empty());
}

#[test]
fn largest_of_numbers_and_chars() {
    let list = vec![4, 2, 5, 7, 3, 5, 7, 4, 6, 8, 1];
    assert_eq!(*largest(&list), 8);
    let list = vec!['h', 'e', 'l', 'l', 'o', ' ', 'w', 'o', 'r', 'l', 'd'];
    assert_eq!(*largest(&list), 'w');
    assert_eq!(*largest(&[3]), 3);
    assert_eq!(*largest(&[-1, -1]), -1);
}

#[test]
fn largest_is_the_first_of_equals() {
    let list = [(2, 'a'), (1, 'b'), (2, 'c')];
    let firsts: Vec<i32> = list.iter().map(|p| p.0).collect();
    let found = largest(&firsts);
    assert!(std::ptr::eq(found, &firsts[0]));
}

#[test]
fn points_and_pairs() {
    let p = Point { x: 1, y: 2 };
    assert_eq!(*p.x(), 1);
    assert_eq!(*p.y(), 2);
    let left = Point2 { x: 1, y: 'a' };
    let right = Point2 { x: "Hello", y: 'c' };
    let mixed = left.mixup(right);
    assert_eq!(mixed.x, 1);
    assert_eq!(mixed.y, 'c');
    let pair = Pair::new(3, 4);
    assert_eq!((pair.x, pair.y), (3, 4));
    assert_eq!(*pair.larger(), 4);
    assert_eq!(*Pair::new(5, 4).larger(), 5);
    let equal = Pair::new(String::from("a"), String::from("a"));
    assert!(std::ptr::eq(equal.larger(), &equal.x));
}

#[test]
fn slices_split_in_two() {
    let mut values = vec![1, 2, 3, 4, 5, 6];
    let (a, b) = split_at_mut(&mut values, 3);
    assert_eq!(a, vec![1, 2, 3]);
    assert_eq!(b, vec![4, 5, 6]);
    a[0] = 10;
    b[2] = 60;
    assert_eq!(values, vec![10, 2, 3, 4, 5, 60]);
    let (a, b) = split_at_mut(&mut values, 0);
    assert!(a.is_empty());
    assert_eq!(b.len(), 6);
    let (a, b) = split_at_mut(&mut values, 6);
    assert_eq!(a.len(), 6);
    assert!(b.is_empty());
}

#[test]
fn list_grows_at_both_ends() {
    let list = List::Cons(1, Box::new(List::Cons(2, Box::new(List::Cons(3, Box::new(List::Nil))))));
    let list = list.insert_head(10);
    assert_eq!(list.head(), 10);
    assert_eq!(list.tail(), 3);
    let list = list.insert_tail(4);
    assert_eq!(list.tail(), 4);
    let list = list.insert_tail(5).insert_tail(6).insert_tail(7);
    assert_eq!(list.head(), 10);
    assert_eq!(list.tail(), 7);
    assert_eq!(
        format!("{:?}", List::Nil.insert_tail(1).insert_tail(2)),
        "Cons(1, Cons(2, Nil))"
    );
    let single = List::Nil.insert_head(9);
    assert_eq!(single.head(), 9);
    assert_eq!(single.tail(), 9);
}

#[test]
fn my_box_holds_its_value() {
    let y = MyBox::new(5);
    assert_eq!(5, *(y.deref()));
    assert_eq!(y.0, 5);
}

#[test]
fn averaged_collection_keeps_its_sum() {
    let mut c = AveragedCollection::new();
    assert_eq!((c.sum(), c.len()), (0, 0));
    assert_eq!(c.remove(), None);
    c.add(10);
    c.add(20);
    assert_eq!((c.sum(), c.len()), (30, 2));
    assert_eq!(c.sum() as f64 / c.len() as f64, 15.0);
    assert_eq!(c.remove(), Some(20));
    assert_eq!((c.sum(), c.len()), (10, 1));
    c.add(i32::MAX);
    c.add(i32::MAX);
    c.add(i32::MIN);
    assert_eq!(c.sum(), 10 + i32::MAX as i128 * 2 + i32::MIN as i128);
    assert_eq!(c.remove(), Some(i32::MIN));
    assert_eq!(c.sum(), 10 + i32::MAX as i128 * 2);
}
