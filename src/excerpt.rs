//! Excerpts that borrow their text from a longer one.
use vstd::prelude::*;
use vstd::string::StrSliceExecFns;

use crate::text::{chars_of, find, find_exec, lemma_find_from_bounds};

verus! {

/// A part of a text, borrowed from it.
pub struct ImportantExcerpt<'a> {
    pub part: &'a str,
}

/// The text before the first `.`, or the whole text where there is none.
pub open spec fn first_sentence(text: Seq<char>) -> Seq<char> {
    match find(text, seq!['.']) {
        Some(i) => text.subrange(0, i),
        None => text,
    }
}

impl<'a> ImportantExcerpt<'a> {
    /// The first sentence of `text`, as `split('.')` gives it first.
    pub fn first_of(text: &'a str) -> (r: ImportantExcerpt<'a>)
        ensures
            r.part@ == first_sentence(text@),
    {
        let s = chars_of(text);
        let dot = vec!['.'];
        assert(dot@ == seq!['.']);
        match find_exec(&s, &dot) {
            Some(i) => {
                proof {
                    lemma_find_from_bounds(s@, dot@, 0);
                }
                ImportantExcerpt { part: text.substring_char(0, i) }
            },
            None => ImportantExcerpt { part: text },
        }
    }

    /// The level of the excerpt, which is always 3.
    pub fn level(&self) -> (r: i32)
        ensures
            r == 3,
    {
        3
    }
}

/// The first sentence of a novel's opening, kept as an excerpt.
pub fn run_struct_lifetime() -> (r: String)
    ensures
        r@ == first_sentence("Call me Ishmael. Some years ago..."@),
{
    let novel = "Call me Ishmael. Some years ago...";
    let i = ImportantExcerpt::first_of(novel);
    i.part.to_owned()
}

} // verus!
