use std::cell::RefCell;
use worker_pool::quota::{notice, usage_of, LimitTracker, Messenger, Usage};

struct MockMessenger {
    sent_messages: RefCell<Vec<String>>,
}

impl MockMessenger {
    fn new() -> MockMessenger {
        MockMessenger {
            sent_messages: RefCell::new(vec![]),
        }
    }
}

impl Messenger for MockMessenger {
    fn send(&self, msg: &str) {
        self.sent_messages.borrow_mut().push(String::from(msg));
    }
}

#[test]
fn it_sends_an_over_75_percent_warning_message() {
    let mock_messenger = MockMessenger::new();
    let mut limit_tracker = LimitTracker::new(&mock_messenger, 100);

    limit_tracker.set_value(80);

    assert_eq!(mock_messenger.sent_messages.borrow().len(), 1);

    limit_tracker.set_value(90);
    assert_eq!(mock_messenger.sent_messages.borrow().len(), 2);
}

#[test]
fn tracker_sends_the_notice_it_returns() {
    let messenger = MockMessenger::new();
    let mut tracker = LimitTracker::new(&messenger, 100);
    assert_eq!(tracker.value(), 0);
    assert_eq!(tracker.max(), 100);
    assert_eq!(tracker.set_value(74), None);
    assert_eq!(
        tracker.set_value(75),
        Some("Warning: You've used up over 75% of your quota!")
    );
    assert_eq!(
        tracker.set_value(90),
        Some("Urgent warning: You've used up over 90% of your quota!")
    );
    assert_eq!(tracker.set_value(100), Some("Error: You are over your quota!"));
    assert_eq!(tracker.set_value(10), None);
    assert_eq!(tracker.value(), 10);
    assert_eq!(tracker.max(), 100);
    assert_eq!(
        *messenger.sent_messages.borrow(),
        vec![
            String::from("Warning: You've used up over 75% of your quota!"),
            String::from("Urgent warning: You've used up over 90% of your quota!"),
            String::from("Error: You are over your quota!"),
        ]
    );
}

#[test]
fn usage_thresholds() {
    assert_eq!(usage_of(0, 100), Usage::Fine);
    assert_eq!(usage_of(74, 100), Usage::Fine);
    assert_eq!(usage_of(75, 100), Usage::Warning);
    assert_eq!(usage_of(89, 100), Usage::Warning);
    assert_eq!(usage_of(90, 100), Usage::Urgent);
    assert_eq!(usage_of(99, 100), Usage::Urgent);
    assert_eq!(usage_of(100, 100), Usage::Over);
    assert_eq!(usage_of(usize::MAX, 100), Usage::Over);
    assert_eq!(usage_of(3, 4), Usage::Warning);
    assert_eq!(usage_of(2, 3), Usage::Fine);
    assert_eq!(usage_of(9, 10), Usage::Urgent);
    assert_eq!(usage_of(usize::MAX - 1, usize::MAX), Usage::Urgent);
    assert_eq!(usage_of(usize::MAX / 2, usize::MAX), Usage::Fine);
}

#[test]
fn quota_of_nothing() {
    assert_eq!(usage_of(0, 0), Usage::Fine);
    assert_eq!(usage_of(1, 0), Usage::Over);
}

#[test]
fn usage_agrees_with_the_ratio() {
    for max in 1usize..60 {
        for value in 0usize..80 {
            let ratio = value as f64 / max as f64;
            let expected = if ratio >= 1.0 {
                Usage::Over
            } else if ratio >= 0.9 {
                Usage::Urgent
            } else if ratio >= 0.75 {
                Usage::Warning
            } else {
                Usage::Fine
            };
            assert_eq!(usage_of(value, max), expected, "{} of {}", value, max);
        }
    }
}

#[test]
fn notices() {
    assert_eq!(notice(Usage::Fine), None);
    assert_eq!(
        notice(Usage::Warning),
        Some("Warning: You've used up over 75% of your quota!")
    );
    assert_eq!(
        notice(Usage::Urgent),
        Some("Urgent warning: You've used up over 90% of your quota!")
    );
    assert_eq!(notice(Usage::Over), Some("Error: You are over your quota!"));
}
