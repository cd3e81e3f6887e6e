//! Summaries of what was published.

use vstd::prelude::*;
use vstd::string::StringExecFns;

verus! {

/// What can be summed up in a line.
pub trait Summary {
    /// The summary of this item.
    spec fn summary(&self) -> Seq<char>;

    /// Who wrote this item, as the summary names them.
    spec fn author(&self) -> Seq<char>;

    /// The summary.
    fn summarize(&self) -> (text: String)
        ensures
            text@ == self.summary(),
    ;

    /// An invitation to read on, the same for every item.
    fn summarize_with_default(&self) -> (text: String)
        ensures
            text@ == "(Read more...)"@,
    {
        String::from_str("(Read more...)")
    }

    /// Who wrote this item.
    fn summarize_author(&self) -> (text: String)
        ensures
            text@ == self.author(),
    ;

    /// An invitation to read more from the author.
    fn summarize_awesome(&self) -> (text: String)
        ensures
            text@ == "(Read more from "@ + self.author() + ")"@,
    {
        String::from_str("(Read more from ").concat(self.summarize_author().as_str()).concat(")")
    }
}

/// An article in the news.
pub struct NewsArticle {
    pub headline: String,
    pub location: String,
    pub author: String,
    pub content: String,
}

impl Summary for NewsArticle {
    open spec fn summary(&self) -> Seq<char> {
        self.headline@ + ", by "@ + self.author@ + " ("@ + self.location@ + ")"@
    }

    open spec fn author(&self) -> Seq<char> {
        self.author@
    }

    fn summarize(&self) -> (text: String) {
        self.headline.clone().concat(", by ").concat(self.author.as_str()).concat(" (").concat(
            self.location.as_str(),
        ).concat(")")
    }

    fn summarize_author(&self) -> (text: String) {
        self.author.clone()
    }
}

/// A short message.
pub struct Tweet {
    pub username: String,
    pub content: String,
    pub reply: bool,
    pub retweet: bool,
}

impl Summary for Tweet {
    open spec fn summary(&self) -> Seq<char> {
        self.username@ + ": "@ + self.content@
    }

    open spec fn author(&self) -> Seq<char> {
        "@"@ + self.username@
    }

    fn summarize(&self) -> (text: String) {
        self.username.clone().concat(": ").concat(self.content.as_str())
    }

    fn summarize_author(&self) -> (text: String) {
        String::from_str("@").concat(self.username.as_str())
    }
}

/// Something that can be summed up: a message to the world.
pub fn returns_summarizable() -> (tweet: Tweet)
    ensures
        tweet.username@ == "98sean98"@,
        tweet.content@ == "I love rust!"@,
        !tweet.reply,
        !tweet.retweet,
{
    Tweet {
        username: String::from_str("98sean98"),
        content: String::from_str("I love rust!"),
        reply: false,
        retweet: false,
    }
}

} // verus!
