//! A blog post that goes through review before it shows its text.
//!
//! A post is a draft, then pending review, then published. Text can be
//! added to a draft only; a post shows its text only once published, which
//! takes two approvals in a row.

use vstd::prelude::*;
use vstd::string::StringExecFns;

verus! {

/// The stage of a post.
#[derive(Clone, Copy, Debug, PartialEq, Eq, Structural)]
pub enum Stage {
    /// Being written.
    Draft,
    /// Waiting for approval, with the number of approvals given so far:
    /// none or one.
    PendingReview { approvals: u32 },
    /// Approved twice and visible.
    Published,
}

/// A blog post.
pub struct Post {
    state: Stage,
    content: String,
}

/// The stage after a review is requested.
pub open spec fn after_request(stage: Stage) -> Stage {
    match stage {
        Stage::Draft => Stage::PendingReview { approvals: 0 },
        _ => stage,
    }
}

/// The stage after an approval.
pub open spec fn after_approval(stage: Stage) -> Stage {
    match stage {
        Stage::PendingReview { approvals } => if approvals == 1 {
            Stage::Published
        } else {
            Stage::PendingReview { approvals: 1 }
        },
        _ => stage,
    }
}

/// The stage after a rejection.
pub open spec fn after_rejection(stage: Stage) -> Stage {
    match stage {
        Stage::PendingReview { .. } => Stage::Draft,
        _ => stage,
    }
}

impl Post {
    #[verifier::type_invariant]
    spec fn counted(self) -> bool {
        self.state matches Stage::PendingReview { approvals } ==> approvals <= 1
    }

    /// The stage the post is in.
    pub closed spec fn stage(&self) -> Stage {
        self.state
    }

    /// The text written so far, shown or not.
    pub closed spec fn text(&self) -> Seq<char> {
        self.content@
    }

    /// An empty draft.
    pub fn new() -> (post: Post)
        ensures
            post.stage() == Stage::Draft,
            post.text() == Seq::<char>::empty(),
    {
        Post { state: Stage::Draft, content: String::new() }
    }

    /// Appends `text` to a draft. A post that is under review or published
    /// keeps its text.
    pub fn add_text(&mut self, text: &str)
        ensures
            final(self).stage() == old(self).stage(),
            final(self).text() == if old(self).stage() == Stage::Draft {
                old(self).text() + text@
            } else {
                old(self).text()
            },
    {
        match self.state {
            Stage::Draft => {
                let mut content = String::new();
                std::mem::swap(&mut content, &mut self.content);
                content.append(text);
                self.content = content;
            },
            _ => {},
        }
    }

    /// What the post shows: its text once published, nothing before.
    pub fn content(&self) -> (shown: &str)
        ensures
            shown@ == if self.stage() == Stage::Published {
                self.text()
            } else {
                Seq::<char>::empty()
            },
    {
        match self.state {
            Stage::Published => self.content.as_str(),
            _ => {
                proof {
                    reveal_strlit("");
                }
                ""
            },
        }
    }

    /// Asks for a review: a draft becomes pending, with no approval yet.
    pub fn request_review(&mut self)
        ensures
            final(self).stage() == after_request(old(self).stage()),
            final(self).text() == old(self).text(),
    {
        proof {
            use_type_invariant(&*self);
        }
        match self.state {
            Stage::Draft => {
                self.state = Stage::PendingReview { approvals: 0 };
            },
            _ => {},
        }
    }

    /// Approves: the first approval of a pending post is counted, the
    /// second publishes it.
    pub fn approve(&mut self)
        ensures
            final(self).stage() == after_approval(old(self).stage()),
            final(self).text() == old(self).text(),
    {
        proof {
            use_type_invariant(&*self);
        }
        match self.state {
            Stage::PendingReview { approvals } => {
                if approvals == 1 {
                    self.state = Stage::Published;
                } else {
                    self.state = Stage::PendingReview { approvals: 1 };
                }
            },
            _ => {},
        }
    }

    /// Rejects: a pending post is a draft again and loses its approvals.
    pub fn reject(&mut self)
        ensures
            final(self).stage() == after_rejection(old(self).stage()),
            final(self).text() == old(self).text(),
    {
        proof {
            use_type_invariant(&*self);
        }
        match self.state {
            Stage::PendingReview { .. } => {
                self.state = Stage::Draft;
            },
            _ => {},
        }
    }
}

/// A post is published only by two approvals with no rejection between
/// them: one approval never publishes a draft or a freshly pending post.
pub proof fn lemma_two_approvals_publish(stage: Stage)
    ensures
        after_approval(after_approval(after_request(Stage::Draft))) == Stage::Published,
        after_approval(after_request(Stage::Draft)) != Stage::Published,
        after_approval(after_rejection(after_approval(after_request(Stage::Draft))))
            == Stage::Draft,
        after_approval(stage) == Stage::Published ==> stage == Stage::Published || stage == (
        Stage::PendingReview { approvals: 1 }),
{
}

} // verus!
