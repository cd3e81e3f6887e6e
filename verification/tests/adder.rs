use worker_pool::adder::{add, add_two, greeting, Guess, Rectangle};

#[test]
fn lib2_it_works() {
    let result = add(2, 2);
    assert_eq!(result, 4);
}

#[test]
fn lib_it_works() {
    let result = add_two(4);
    assert_eq!(result, 6);
}

#[test]
fn it_works() {
    let result = add(2, 2);
    assert_eq!(result, 4);
}

#[test]
fn larger_can_hold_smaller() {
    let larger = Rectangle { width: 10, height: 20 };
    let smaller = Rectangle { width: 5, height: 8 };

    assert!(larger.can_hold(&smaller));
}

#[test]
fn smaller_cannot_hold_larger() {
    let larger = Rectangle { width: 10, height: 20 };
    let smaller = Rectangle { width: 5, height: 8 };

    assert!(!smaller.can_hold(&larger));
}

#[test]
fn equal_rectangles() {
    let r1 = Rectangle { width: 1, height: 1 };
    let r2 = Rectangle { width: 1, height: 1 };

    assert_eq!(r1, r2);
}

#[test]
fn rectangle_holds_its_equal() {
    let r = Rectangle { width: 3, height: 4 };
    assert!(r.can_hold(&Rectangle { width: 3, height: 4 }));
    assert!(!r.can_hold(&Rectangle { width: 4, height: 4 }));
    assert!(!r.can_hold(&Rectangle { width: 3, height: 5 }));
}

#[test]
fn greeting_contains_name() {
    let name = "Carol";
    let result = greeting(&name);

    assert!(
        result.contains(name),
        "Greeting did not contain name, value was `{}`",
        result
    );
}

#[test]
fn greeting_is_exact() {
    assert_eq!(greeting("Carol"), "Hello! Carol");
    assert_eq!(greeting(""), "Hello! ");
}

#[test]
fn it_works_v2() -> Result<(), String> {
    if add(2, 2) == 4 {
        Ok(())
    } else {
        Err(String::from("2 + 2 does not equal 4"))
    }
}

#[test]
fn it_adds() {
    assert_eq!(add(2, 2), 4);
}

#[test]
fn it_adds_v2() {
    assert_eq!(add(3, 4), 7);
}

#[test]
fn add_reaches_the_largest_number() {
    assert_eq!(add(usize::MAX, 0), usize::MAX);
    assert_eq!(add(usize::MAX - 5, 5), usize::MAX);
    assert_eq!(add_two(usize::MAX - 2), usize::MAX);
    assert_eq!(add_two(0), 2);
}

#[test]
fn guess_keeps_its_value() {
    assert_eq!(Guess::new(1).value(), 1);
    assert_eq!(Guess::new(100).value(), 100);
    assert_eq!(Guess::new_v2(1).value(), 1);
    assert_eq!(Guess::new_v2(57).value(), 57);
}
