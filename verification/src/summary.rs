//! Summaries of posts: a common interface with one implementation per kind
//! of post.
use vstd::prelude::*;

verus! {

/// Something that can describe itself in one line and attach a promotion.
pub trait Summary {
    /// What the summary says.
    spec fn spec_summary(&self) -> Seq<char>;

    /// What the promotion says.
    spec fn spec_promotion(&self) -> Seq<char>;

    /// A one-line description.
    fn summarize(&self) -> (r: String)
        ensures
            r@ == self.spec_summary(),
    ;

    /// The promotion attached to the post.
    fn promotion(&self) -> (r: String)
        ensures
            r@ == self.spec_promotion(),
    ;
}

/// A short message by a named user.
pub struct Tweet {
    pub username: String,
    pub message: String,
}

impl Summary for Tweet {
    open spec fn spec_summary(&self) -> Seq<char> {
        self.message@ + " by "@ + self.username@
    }

    open spec fn spec_promotion(&self) -> Seq<char> {
        "No promotions attached"@
    }

    fn summarize(&self) -> (r: String) {
        self.message.clone().concat(" by ").concat(self.username.as_str())
    }

    fn promotion(&self) -> (r: String) {
        String::from_str("No promotions attached")
    }
}

/// A longer piece by a named author.
pub struct Article {
    pub author: String,
    pub content: String,
}

impl Summary for Article {
    open spec fn spec_summary(&self) -> Seq<char> {
        self.content@ + " by "@ + self.author@
    }

    open spec fn spec_promotion(&self) -> Seq<char> {
        "[AD] 0.9% APR on New Car Financing: See https://cars.xyz"@
    }

    fn summarize(&self) -> (r: String) {
        self.content.clone().concat(" by ").concat(self.author.as_str())
    }

    fn promotion(&self) -> (r: String) {
        String::from_str("[AD] 0.9% APR on New Car Financing: See https://cars.xyz")
    }
}

} // verus!
