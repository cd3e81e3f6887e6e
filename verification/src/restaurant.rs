//! A restaurant: the front of house seats guests, the back of house cooks.

use vstd::prelude::*;
use vstd::string::StringExecFns;

verus! {

/// Puts a party on the wait list. The list is not kept yet.
pub fn add_to_waitlist() {
}

/// A guest eats: the party is put on the wait list, by either path.
pub fn eat_at_restaurant() {
    add_to_waitlist();
    add_to_waitlist();
}

/// A breakfast: the guest picks the toast, the chef the fruit.
pub struct Breakfast {
    pub toast: String,
    seasonal_fruit: String,
}

impl Breakfast {
    /// The toast that the guest picked.
    pub closed spec fn spec_toast(&self) -> Seq<char> {
        self.toast@
    }

    /// The fruit that comes with the breakfast.
    pub closed spec fn spec_seasonal_fruit(&self) -> Seq<char> {
        self.seasonal_fruit@
    }

    /// A summer breakfast with the toast asked for, and peaches.
    pub fn summer(toast: &str) -> (meal: Breakfast)
        ensures
            meal.spec_toast() == toast@,
            meal.spec_seasonal_fruit() == "Peaches"@,
    {
        Breakfast {
            toast: String::from_str(toast),
            seasonal_fruit: String::from_str("Peaches"),
        }
    }

    /// The fruit that comes with the breakfast.
    pub fn seasonal_fruit(&self) -> (fruit: &str)
        ensures
            fruit@ == self.spec_seasonal_fruit(),
    {
        self.seasonal_fruit.as_str()
    }
}

/// What can be had before the meal.
#[derive(Clone, Copy, Debug, PartialEq, Eq, Structural)]
pub enum Appetizer {
    Soup,
    Salad,
}

} // verus!
