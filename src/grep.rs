//! Searching the lines of a text for a query, as is or ignoring case.
use vstd::prelude::*;
use vstd::string::StrSliceExecFns;

use crate::text::{chars_of, find, find_exec, sub_chars};

verus! {

/// Whether `needle` occurs in `hay`.
pub open spec fn contains(hay: Seq<char>, needle: Seq<char>) -> bool {
    find(hay, needle) is Some
}

/// What `str::to_lowercase` makes of a text.
pub uninterp spec fn lower_of(s: Seq<char>) -> Seq<char>;

/// Relies on `str::to_lowercase`: the lowercase form of `s`, which depends on
/// its characters alone.
#[verifier::external_body]
fn lowercase(s: &str) -> (r: String)
    ensures
        r@ == lower_of(s@),
{
    s.to_lowercase()
}

/// The index of the first line break at or after `i`, or the length.
pub open spec fn next_break(s: Seq<char>, i: int) -> int
    decreases s.len() - i,
{
    if i < 0 || i >= s.len() {
        s.len() as int
    } else if s[i] == '\n' {
        i
    } else {
        next_break(s, i + 1)
    }
}

/// A line without the carriage return that ends a `\r\n` break.
pub open spec fn strip_cr(l: Seq<char>) -> Seq<char> {
    if l.len() > 0 && l.last() == '\r' {
        l.drop_last()
    } else {
        l
    }
}

/// Line `l` is a hit for `q`: it holds `q`, or, when folding case, its
/// lowercase form holds `q`.
pub open spec fn hit(l: Seq<char>, q: Seq<char>, fold: bool) -> bool {
    if fold {
        contains(lower_of(l), q)
    } else {
        contains(l, q)
    }
}

/// The hits among the lines of `s` from index `start` on, in order. Lines end
/// at `\n` or `\r\n`; a final line break starts no empty line.
pub open spec fn hits_from(s: Seq<char>, start: int, q: Seq<char>, fold: bool) -> Seq<Seq<char>>
    decreases s.len() - start,
    via hits_from_decreases
{
    if start < 0 || start >= s.len() {
        Seq::empty()
    } else {
        let e = next_break(s, start);
        let line = if e < s.len() {
            strip_cr(s.subrange(start, e))
        } else {
            s.subrange(start, e)
        };
        let first = if hit(line, q, fold) {
            seq![line]
        } else {
            Seq::empty()
        };
        if e < s.len() {
            first + hits_from(s, e + 1, q, fold)
        } else {
            first
        }
    }
}

proof fn lemma_next_break(s: Seq<char>, i: int)
    requires
        0 <= i <= s.len(),
    ensures
        i <= next_break(s, i) <= s.len(),
        forall|k: int| i <= k < next_break(s, i) ==> s[k] != '\n',
        next_break(s, i) < s.len() ==> s[next_break(s, i)] == '\n',
    decreases s.len() - i,
{
    if i < s.len() && s[i] != '\n' {
        lemma_next_break(s, i + 1);
    }
}

#[via_fn]
proof fn hits_from_decreases(s: Seq<char>, start: int, q: Seq<char>, fold: bool) {
    if 0 <= start < s.len() {
        lemma_next_break(s, start);
    }
}

/// The lines of `contents` that hold `query`, in order.
pub open spec fn search_spec(contents: Seq<char>, query: Seq<char>) -> Seq<Seq<char>> {
    hits_from(contents, 0, query, false)
}

/// The lines of `contents` whose lowercase form holds the lowercase form of
/// `query`, in order.
pub open spec fn search_folded_spec(contents: Seq<char>, query: Seq<char>) -> Seq<Seq<char>> {
    hits_from(contents, 0, lower_of(query), true)
}

/// The texts of a list of string slices.
pub open spec fn str_views(v: Seq<&str>) -> Seq<Seq<char>> {
    v.map_values(|l: &str| l@)
}

/// Whether `needle` occurs in `hay`.
pub fn contains_chars(hay: &Vec<char>, needle: &Vec<char>) -> (r: bool)
    ensures
        r == contains(hay@, needle@),
{
    if needle.len() == 0 {
        assert(hay@.subrange(0, 0) =~= needle@);
        return true;
    }
    find_exec(hay, needle).is_some()
}

/// Whether `needle` occurs in `hay`.
pub fn contains_text(hay: &str, needle: &str) -> (r: bool)
    ensures
        r == contains(hay@, needle@),
{
    contains_chars(&chars_of(hay), &chars_of(needle))
}

fn hits<'a>(contents: &'a str, q: &Vec<char>, fold: bool) -> (r: Vec<&'a str>)
    ensures
        str_views(r@) == hits_from(contents@, 0, q@, fold),
{
    let s = chars_of(contents);
    let mut out: Vec<&'a str> = Vec::new();
    let mut start: usize = 0;
    while start < s.len()
        invariant
            s@ == contents@,
            start <= s.len(),
            hits_from(s@, 0, q@, fold) == str_views(out@) + hits_from(s@, start as int, q@, fold),
        decreases s.len() - start,
    {
        let mut e: usize = start;
        while e < s.len() && s[e] != '\n'
            invariant
                start <= e <= s.len(),
                next_break(s@, start as int) == next_break(s@, e as int),
            decreases s.len() - e,
        {
            e += 1;
        }
        let mut le: usize = e;
        if e < s.len() && le > start && s[le - 1] == '\r' {
            le -= 1;
        }
        let ghost line = if e < s.len() {
            strip_cr(s@.subrange(start as int, e as int))
        } else {
            s@.subrange(start as int, e as int)
        };
        assert(s@.subrange(start as int, le as int) =~= line);
        let text: &'a str = contents.substring_char(start, le);
        let found = if fold {
            let low = lowercase(text);
            contains_chars(&chars_of(low.as_str()), q)
        } else {
            contains_chars(&sub_chars(&s, start, le), q)
        };
        let ghost before = out@;
        if found {
            out.push(text);
        }
        let ghost old_start = start as int;
        if e < s.len() {
            start = e + 1;
        } else {
            start = s.len();
        }
        proof {
            let first = if hit(line, q@, fold) {
                seq![line]
            } else {
                Seq::<Seq<char>>::empty()
            };
            assert(str_views(out@) =~= str_views(before) + first);
            assert(next_break(s@, old_start) == e);
            let rest = hits_from(s@, start as int, q@, fold);
            if e < s.len() {
                assert(hits_from(s@, old_start, q@, fold) == first + rest);
            } else {
                assert(hits_from(s@, old_start, q@, fold) == first);
                assert(rest =~= Seq::<Seq<char>>::empty());
            }
            assert(str_views(before) + (first + rest) =~= str_views(out@) + rest);
        }
    }
    assert(hits_from(s@, start as int, q@, fold) =~= Seq::<Seq<char>>::empty());
    assert(str_views(out@) + Seq::<Seq<char>>::empty() =~= str_views(out@));
    out
}

/// The lines of `contents` that hold `query`, in order.
pub fn search<'a>(query: &str, contents: &'a str) -> (r: Vec<&'a str>)
    ensures
        str_views(r@) == search_spec(contents@, query@),
{
    hits(contents, &chars_of(query), false)
}

/// The lines of `contents` that hold `query` when both are taken in
/// lowercase, in order.
pub fn search_case_insensitive<'a>(query: &str, contents: &'a str) -> (r: Vec<&'a str>)
    ensures
        str_views(r@) == search_folded_spec(contents@, query@),
{
    let low = lowercase(query);
    hits(contents, &chars_of(low.as_str()), true)
}

/// `not enough arguments`, the error of a command line that is too short.
pub open spec fn not_enough_arguments() -> Seq<char> {
    seq![
        'n', 'o', 't', ' ', 'e', 'n', 'o', 'u', 'g', 'h', ' ', 'a', 'r', 'g', 'u', 'm', 'e', 'n', 't',
        's',
    ]
}

/// The lines of `contents` that a configuration selects: those holding its
/// query, in lowercase when it ignores case.
pub fn search_with<'a>(config: &Config, contents: &'a str) -> (r: Vec<&'a str>)
    ensures
        str_views(r@) == if config.ignore_case {
            search_folded_spec(contents@, config.query@)
        } else {
            search_spec(contents@, config.query@)
        },
{
    if config.ignore_case {
        search_case_insensitive(config.query.as_str(), contents)
    } else {
        search(config.query.as_str(), contents)
    }
}

/// What to search for, where, and whether case matters.
pub struct Config {
    pub query: String,
    pub file_path: String,
    pub ignore_case: bool,
}

impl Config {
    /// The configuration from command-line arguments: the program name, the
    /// query and the file path, in that order. `ignore_case` comes from the
    /// environment, which the caller reads.
    pub fn build(args: &[String], ignore_case: bool) -> (r: Result<Config, &'static str>)
        ensures
            r is Err <==> args@.len() < 3,
            r matches Err(m) ==> m@ == not_enough_arguments(),
            r matches Ok(c) ==> c.query@ == args@[1]@ && c.file_path@ == args@[2]@ && c.ignore_case
                == ignore_case,
    {
        if args.len() < 3 {
            let m = "not enough arguments";
            proof {
                reveal_strlit("not enough arguments");
            }
            assert(m@ =~= not_enough_arguments());
            return Err(m);
        }
        let query = args[1].clone();
        let file_path = args[2].clone();
        Ok(Config { query, file_path, ignore_case })
    }
}

} // verus!
