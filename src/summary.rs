//! Short summaries of news articles and tweets.
use vstd::prelude::*;

use crate::text::{push_str, string_of};

verus! {

/// A one-line summary of an item.
pub trait Summary {
    /// The summary, as text.
    spec fn summary_spec(&self) -> Seq<char>;

    fn summarize(&self) -> (r: String)
        ensures
            r@ == self.summary_spec(),
    ;
}

/// `default summary`.
pub open spec fn default_summary() -> Seq<char> {
    seq!['d', 'e', 'f', 'a', 'u', 'l', 't', ' ', 's', 'u', 'm', 'm', 'a', 'r', 'y']
}

/// A summary that an item may leave as it is.
pub trait SummaryWithDefault {
    fn summarize_default(&self) -> (r: String)
        ensures
            r@ == default_summary(),
    {
        let v = vec!['d', 'e', 'f', 'a', 'u', 'l', 't', ' ', 's', 'u', 'm', 'm', 'a', 'r', 'y'];
        assert(v@ == default_summary());
        string_of(&v)
    }
}

/// `(Read more from <author>...)`.
pub open spec fn read_more(author: Seq<char>) -> Seq<char> {
    seq!['(', 'R', 'e', 'a', 'd', ' ', 'm', 'o', 'r', 'e', ' ', 'f', 'r', 'o', 'm', ' '] + author
        + seq!['.', '.', '.', ')']
}

/// A summary built from the author, which each item gives.
pub trait SummaryMixed {
    /// The author, as text.
    spec fn author_spec(&self) -> Seq<char>;

    fn summarize_author(&self) -> (r: String)
        ensures
            r@ == self.author_spec(),
    ;

    fn summarize_mixed(&self) -> (r: String)
        ensures
            r@ == read_more(self.author_spec()),
    {
        let author = self.summarize_author();
        let mut out = vec!['(', 'R', 'e', 'a', 'd', ' ', 'm', 'o', 'r', 'e', ' ', 'f', 'r', 'o', 'm', ' '];
        push_str(&mut out, author.as_str());
        let mut tail = vec!['.', '.', '.', ')'];
        out.append(&mut tail);
        assert(out@ =~= read_more(self.author_spec()));
        string_of(&out)
    }
}

/// A news article.
pub struct NewsArticle {
    pub headline: String,
    pub location: String,
    pub author: String,
    pub content: String,
}

impl Summary for NewsArticle {
    /// `<headline>, by <author> (<location>)`.
    open spec fn summary_spec(&self) -> Seq<char> {
        self.headline@ + seq![',', ' ', 'b', 'y', ' '] + self.author@ + seq![' ', '('] + self.location@
            + seq![')']
    }

    fn summarize(&self) -> (r: String) {
        let mut out: Vec<char> = Vec::new();
        push_str(&mut out, self.headline.as_str());
        let mut by = vec![',', ' ', 'b', 'y', ' '];
        out.append(&mut by);
        push_str(&mut out, self.author.as_str());
        out.push(' ');
        out.push('(');
        push_str(&mut out, self.location.as_str());
        out.push(')');
        assert(out@ =~= self.summary_spec());
        string_of(&out)
    }
}

impl SummaryWithDefault for NewsArticle {

}

/// A tweet.
pub struct Tweet {
    pub username: String,
    pub content: String,
    pub reply: bool,
    pub retweet: bool,
}

impl Summary for Tweet {
    /// `<username>: <content>`.
    open spec fn summary_spec(&self) -> Seq<char> {
        self.username@ + seq![':', ' '] + self.content@
    }

    fn summarize(&self) -> (r: String) {
        let mut out: Vec<char> = Vec::new();
        push_str(&mut out, self.username.as_str());
        out.push(':');
        out.push(' ');
        push_str(&mut out, self.content.as_str());
        assert(out@ =~= self.summary_spec());
        string_of(&out)
    }
}

impl SummaryMixed for Tweet {
    /// `@<username>`.
    open spec fn author_spec(&self) -> Seq<char> {
        seq!['@'] + self.username@
    }

    fn summarize_author(&self) -> (r: String) {
        let mut out = vec!['@'];
        push_str(&mut out, self.username.as_str());
        string_of(&out)
    }
}

} // verus!
