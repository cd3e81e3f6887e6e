//! Tracking a value against a quota, with warnings as the quota fills.

use vstd::prelude::*;

verus! {

/// Where notices about the quota are sent.
pub trait Messenger {
    /// Delivers `msg`.
    fn send(&self, msg: &str);
}

/// How far a quota is used.
#[derive(Clone, Copy, Debug, PartialEq, Eq, Structural)]
pub enum Usage {
    /// Under three quarters, or nothing used of a quota of nothing.
    Fine,
    /// At least three quarters.
    Warning,
    /// At least nine tenths.
    Urgent,
    /// All of it, or more.
    Over,
}

/// How far a quota of `max` is used by `value`: by the ratio of the two.
/// Of a quota of nothing, anything used is too much.
pub open spec fn usage(value: nat, max: nat) -> Usage {
    if max == 0 {
        if value > 0 {
            Usage::Over
        } else {
            Usage::Fine
        }
    } else if value >= max {
        Usage::Over
    } else if 10 * value >= 9 * max {
        Usage::Urgent
    } else if 4 * value >= 3 * max {
        Usage::Warning
    } else {
        Usage::Fine
    }
}

/// The notice that goes with a usage, if any.
pub open spec fn notice_text(level: Usage) -> Option<Seq<char>> {
    match level {
        Usage::Fine => None,
        Usage::Warning => Some("Warning: You've used up over 75% of your quota!"@),
        Usage::Urgent => Some("Urgent warning: You've used up over 90% of your quota!"@),
        Usage::Over => Some("Error: You are over your quota!"@),
    }
}

/// How far a quota of `max` is used by `value`.
pub fn usage_of(value: usize, max: usize) -> (level: Usage)
    ensures
        level == usage(value as nat, max as nat),
{
    let v: u128 = value as u128;
    let m: u128 = max as u128;
    if m == 0 {
        if v > 0 {
            Usage::Over
        } else {
            Usage::Fine
        }
    } else if v >= m {
        Usage::Over
    } else if 10 * v >= 9 * m {
        Usage::Urgent
    } else if 4 * v >= 3 * m {
        Usage::Warning
    } else {
        Usage::Fine
    }
}

/// The notice to send for a usage, if any.
pub fn notice(level: Usage) -> (text: Option<&'static str>)
    ensures
        text is Some <==> notice_text(level) is Some,
        text is Some ==> text->Some_0@ == notice_text(level)->Some_0,
{
    match level {
        Usage::Fine => None,
        Usage::Warning => Some("Warning: You've used up over 75% of your quota!"),
        Usage::Urgent => Some("Urgent warning: You've used up over 90% of your quota!"),
        Usage::Over => Some("Error: You are over your quota!"),
    }
}

/// Follows a value against a maximum and tells a messenger when the value
/// comes close to the maximum or passes it.
pub struct LimitTracker<'a, T: Messenger> {
    messenger: &'a T,
    value: usize,
    max: usize,
}

impl<'a, T: Messenger> LimitTracker<'a, T> {
    /// The value last set.
    pub closed spec fn spec_value(&self) -> usize {
        self.value
    }

    /// The maximum, fixed at construction.
    pub closed spec fn spec_max(&self) -> usize {
        self.max
    }

    /// The messenger, fixed at construction.
    pub closed spec fn spec_messenger(&self) -> &'a T {
        self.messenger
    }

    /// A tracker of a quota of `max` of which nothing is used.
    pub fn new(messenger: &'a T, max: usize) -> (tracker: LimitTracker<'a, T>)
        ensures
            tracker.spec_value() == 0,
            tracker.spec_max() == max,
            tracker.spec_messenger() == messenger,
    {
        LimitTracker { messenger, value: 0, max }
    }

    /// The value last set.
    #[verifier::when_used_as_spec(spec_value)]
    pub fn value(&self) -> (value: usize)
        ensures
            value == self.spec_value(),
    {
        self.value
    }

    /// The maximum.
    #[verifier::when_used_as_spec(spec_max)]
    pub fn max(&self) -> (max: usize)
        ensures
            max == self.spec_max(),
    {
        self.max
    }

    /// Records `value` and sends the messenger the notice that its usage of
    /// the quota calls for, if it calls for one. The notice sent is also
    /// returned.
    pub fn set_value(&mut self, value: usize) -> (sent: Option<&'static str>)
        ensures
            final(self).spec_value() == value,
            final(self).spec_max() == old(self).spec_max(),
            final(self).spec_messenger() == old(self).spec_messenger(),
            sent is Some <==> usage(value as nat, old(self).spec_max() as nat) != Usage::Fine,
            sent is Some ==> Some(sent->Some_0@) == notice_text(
                usage(value as nat, old(self).spec_max() as nat),
            ),
    {
        self.value = value;
        let sent = notice(usage_of(value, self.max));
        match sent {
            Some(text) => {
                self.messenger.send(text);
            },
            None => {},
        }
        sent
    }
}

/// The more of a quota is used, the graver the notice: a value that is over
/// the quota stays over when it grows, and a value that is fine stays fine
/// when it shrinks.
pub proof fn lemma_usage_monotonic(low: nat, high: nat, max: nat)
    requires
        low <= high,
    ensures
        usage(low, max) == Usage::Over ==> usage(high, max) == Usage::Over,
        usage(low, max) == Usage::Urgent ==> usage(high, max) == Usage::Urgent || usage(high, max)
            == Usage::Over,
        usage(high, max) == Usage::Fine ==> usage(low, max) == Usage::Fine,
{
}

} // verus!
