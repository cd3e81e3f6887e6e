//! A blog post whose stage is its type.
//!
//! A draft can take text, a pending post can be approved or rejected, and
//! only a published [`Post`] can show its content: what a post cannot do at
//! a stage, its type at that stage does not offer.

use vstd::prelude::*;
use vstd::string::StringExecFns;

verus! {

/// A published post.
pub struct Post {
    content: String,
}

/// A post being written.
pub struct DraftPost {
    content: String,
}

/// A post that waits for its first approval.
pub struct PendingFirstReviewPost {
    content: String,
}

/// A post that waits for its second approval.
pub struct PendingSecondReviewPost {
    content: String,
}

impl Post {
    /// The text of the post.
    pub closed spec fn text(&self) -> Seq<char> {
        self.content@
    }

    /// An empty draft.
    pub fn new() -> (draft: DraftPost)
        ensures
            draft.text() == Seq::<char>::empty(),
    {
        DraftPost { content: String::new() }
    }

    /// The text of the post.
    pub fn content(&self) -> (shown: &str)
        ensures
            shown@ == self.text(),
    {
        self.content.as_str()
    }
}

impl DraftPost {
    /// The text written so far.
    pub closed spec fn text(&self) -> Seq<char> {
        self.content@
    }

    /// Appends `text` to the draft.
    pub fn add_text(&mut self, text: &str)
        ensures
            final(self).text() == old(self).text() + text@,
    {
        self.content.append(text);
    }

    /// Hands the draft in for review, with its text.
    pub fn request_review(self) -> (pending: PendingFirstReviewPost)
        ensures
            pending.text() == self.text(),
    {
        PendingFirstReviewPost { content: self.content }
    }
}

impl PendingFirstReviewPost {
    /// The text under review.
    pub closed spec fn text(&self) -> Seq<char> {
        self.content@
    }

    /// Gives the first approval.
    pub fn approve(self) -> (pending: PendingSecondReviewPost)
        ensures
            pending.text() == self.text(),
    {
        PendingSecondReviewPost { content: self.content }
    }

    /// Sends the post back to its author.
    pub fn reject(self) -> (draft: DraftPost)
        ensures
            draft.text() == self.text(),
    {
        DraftPost { content: self.content }
    }
}

impl PendingSecondReviewPost {
    /// The text under review.
    pub closed spec fn text(&self) -> Seq<char> {
        self.content@
    }

    /// Gives the second approval, which publishes the post.
    pub fn approve(self) -> (post: Post)
        ensures
            post.text() == self.text(),
    {
        Post { content: self.content }
    }

    /// Sends the post back to its author.
    pub fn reject(self) -> (draft: DraftPost)
        ensures
            draft.text() == self.text(),
    {
        DraftPost { content: self.content }
    }
}

} // verus!
