use worker_pool::inventory::{shoes_in_size, Inventory, ShirtColor, Shoe};
use worker_pool::iterators;

#[test]
fn iterator_demonstration() {
    let v1 = vec![1, 2, 3];

    let mut v1_iter = v1.iter();

    assert_eq!(v1_iter.next(), Some(&1));
    assert_eq!(v1_iter.next(), Some(&2));
    assert_eq!(v1_iter.next(), Some(&3));
    assert_eq!(v1_iter.next(), None);
}

#[test]
fn iterator_sum() {
    let v1 = vec![1, 2, 3];

    let v1_iter = v1.iter();

    let total: i32 = v1_iter.sum();

    assert_eq!(total, 6);
}

#[test]
fn filters_by_size() {
    let shoes = vec![
        Shoe { size: 10, style: String::from("sneakers") },
        Shoe { size: 12, style: String::from("sandals") },
        Shoe { size: 10, style: String::from("boots") },
    ];

    let in_size = shoes_in_size(shoes, 10);

    assert_eq!(
        in_size,
        vec![
            Shoe { size: 10, style: String::from("sneakers") },
            Shoe { size: 10, style: String::from("boots") },
        ]
    );
}

#[test]
fn no_shoe_fits() {
    let shoes = vec![Shoe { size: 10, style: String::from("sneakers") }];
    assert_eq!(shoes_in_size(shoes, 11), vec![]);
    assert_eq!(shoes_in_size(vec![], 11), vec![]);
}

#[test]
fn giveaway_follows_preference_then_stock() {
    let store = Inventory {
        shirts: vec![ShirtColor::Blue, ShirtColor::Red, ShirtColor::Blue],
    };
    assert_eq!(store.giveaway(Some(ShirtColor::Red)), ShirtColor::Red);
    assert_eq!(store.giveaway(Some(ShirtColor::Blue)), ShirtColor::Blue);
    assert_eq!(store.giveaway(None), ShirtColor::Blue);
    assert_eq!(store.most_stocked(), ShirtColor::Blue);
}

#[test]
fn most_stocked_prefers_blue_on_a_tie() {
    let red = Inventory {
        shirts: vec![ShirtColor::Red, ShirtColor::Blue, ShirtColor::Red],
    };
    assert_eq!(red.most_stocked(), ShirtColor::Red);
    let tie = Inventory {
        shirts: vec![ShirtColor::Red, ShirtColor::Blue],
    };
    assert_eq!(tie.most_stocked(), ShirtColor::Blue);
    let empty = Inventory { shirts: vec![] };
    assert_eq!(empty.most_stocked(), ShirtColor::Blue);
    assert_eq!(empty.giveaway(None), ShirtColor::Blue);
}

struct Countdown(u32);

impl iterators::Iterator for Countdown {
    type Item = u32;

    fn next(&mut self) -> Option<u32> {
        if self.0 == 0 {
            None
        } else {
            self.0 -= 1;
            Some(self.0 + 1)
        }
    }
}

#[test]
fn own_iterators_hand_out_items_until_none() {
    let mut countdown = Countdown(2);
    assert_eq!(iterators::Iterator::next(&mut countdown), Some(2));
    assert_eq!(iterators::Iterator::next(&mut countdown), Some(1));
    assert_eq!(iterators::Iterator::next(&mut countdown), None);
}
