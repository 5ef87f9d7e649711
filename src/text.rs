//! Character-sequence helpers shared by the grammar and the formatter.
use vstd::prelude::*;
use vstd::std_specs::iter::IteratorSpec;

verus! {

/// `sep` occurs in `s` starting at index `i`.
pub open spec fn occurs_at(s: Seq<char>, sep: Seq<char>, i: int) -> bool {
    0 <= i && i + sep.len() <= s.len() && s.subrange(i, i + sep.len()) == sep
}

/// The first index at or after `i` where `sep` occurs in `s`.
pub open spec fn find_from(s: Seq<char>, sep: Seq<char>, i: int) -> Option<int>
    decreases s.len() + 1 - i,
{
    if i < 0 || i + sep.len() > s.len() {
        None
    } else if occurs_at(s, sep, i) {
        Some(i)
    } else {
        find_from(s, sep, i + 1)
    }
}

/// The first index where `sep` occurs in `s`.
pub open spec fn find(s: Seq<char>, sep: Seq<char>) -> Option<int> {
    find_from(s, sep, 0)
}

/// Where `find_from` finds nothing from `i` on, `sep` occurs nowhere from `i` on.
pub proof fn lemma_find_from_none(s: Seq<char>, sep: Seq<char>, i: int)
    requires
        i >= 0,
        find_from(s, sep, i) is None,
    ensures
        forall|j: int| i <= j ==> !#[trigger] occurs_at(s, sep, j),
    decreases s.len() + 1 - i,
{
    if i + sep.len() <= s.len() {
        lemma_find_from_none(s, sep, i + 1);
    }
}

/// Where `sep` occurs at `m` and nowhere between `i` and `m`, `find_from`
/// answers `m`.
pub proof fn lemma_find_from_first(s: Seq<char>, sep: Seq<char>, i: int, m: int)
    requires
        0 <= i <= m,
        occurs_at(s, sep, m),
        forall|j: int| i <= j < m ==> !#[trigger] occurs_at(s, sep, j),
    ensures
        find_from(s, sep, i) == Some(m),
    decreases m - i,
{
    if i < m {
        lemma_find_from_first(s, sep, i + 1, m);
    }
}

/// Where `sep` occurs nowhere from `i` on, `find_from` finds nothing.
pub proof fn lemma_find_from_absent(s: Seq<char>, sep: Seq<char>, i: int)
    requires
        forall|j: int| i <= j ==> !#[trigger] occurs_at(s, sep, j),
    ensures
        find_from(s, sep, i) is None,
    decreases s.len() + 1 - i,
{
    if 0 <= i && i + sep.len() <= s.len() {
        lemma_find_from_absent(s, sep, i + 1);
    }
}

/// Where `find_from` answers, the separator occurs there, fits in the text,
/// and occurs nowhere between `j` and there.
pub proof fn lemma_find_from_bounds(s: Seq<char>, sep: Seq<char>, j: int)
    ensures
        find_from(s, sep, j) matches Some(i) ==> j <= i && occurs_at(s, sep, i) && forall|k: int|
            j <= k < i ==> !#[trigger] occurs_at(s, sep, k),
    decreases s.len() + 1 - j,
{
    if j < 0 || j + sep.len() > s.len() {
    } else if occurs_at(s, sep, j) {
    } else {
        lemma_find_from_bounds(s, sep, j + 1);
    }
}

/// The decimal digit character for `d < 10`.
pub open spec fn digit(d: nat) -> char {
    seq!['0', '1', '2', '3', '4', '5', '6', '7', '8', '9'][d as int]
}

/// The decimal representation of `n`, without leading zeros.
pub open spec fn decimal(n: nat) -> Seq<char>
    decreases n,
{
    if n < 10 {
        seq![digit(n)]
    } else {
        decimal(n / 10).push(digit(n % 10))
    }
}

/// The characters of `s`, in order.
pub(crate) fn chars_of(s: &str) -> (r: Vec<char>)
    ensures
        r@ == s@,
{
    broadcast use vstd::string::group_string_axioms;

    let mut it = s.chars();
    let mut r: Vec<char> = Vec::new();
    loop
        invariant
            it.obeys_prophetic_iter_laws(),
            it.decrease() is Some,
            r@ + it.remaining() == s@,
        ensures
            r@ == s@,
        decreases it.decrease()->0,
    {
        match it.next() {
            Some(c) => {
                r.push(c);
                assert(r@ + it.remaining() =~= s@);
            },
            None => {
                assert(r@ =~= s@);
                break ;
            },
        }
    }
    r
}

/// Relies on `String::push`: the character is added at the end.
#[verifier::external_body]
fn push_char(s: &mut String, c: char)
    ensures
        final(s)@ == old(s)@.push(c),
{
    s.push(c)
}

/// The string of the characters of `v`.
pub(crate) fn string_of(v: &Vec<char>) -> (r: String)
    ensures
        r@ == v@,
{
    let mut r = String::new();
    let mut i: usize = 0;
    while i < v.len()
        invariant
            i <= v.len(),
            r@ == v@.subrange(0, i as int),
        decreases v.len() - i,
    {
        push_char(&mut r, v[i]);
        i += 1;
        assert(r@ =~= v@.subrange(0, i as int));
    }
    assert(v@.subrange(0, v.len() as int) =~= v@);
    r
}

/// Whether `sep` occurs in `s` at index `i`.
pub fn occurs_at_exec(s: &Vec<char>, sep: &Vec<char>, i: usize) -> (r: bool)
    ensures
        r == occurs_at(s@, sep@, i as int),
{
    if sep.len() > s.len() || i > s.len() - sep.len() {
        return false;
    }
    let mut j: usize = 0;
    while j < sep.len()
        invariant
            j <= sep.len(),
            i + sep.len() <= s.len(),
            forall|k: int| 0 <= k < j ==> s[i + k] == sep[k],
        decreases sep.len() - j,
    {
        if s[i + j] != sep[j] {
            assert(s@.subrange(i as int, i + sep.len())[j as int] != sep@[j as int]);
            return false;
        }
        j += 1;
    }
    assert(s@.subrange(i as int, i + sep.len()) =~= sep@);
    true
}

/// The first index where `sep` occurs in `s`, if any.
pub fn find_exec(s: &Vec<char>, sep: &Vec<char>) -> (r: Option<usize>)
    requires
        sep.len() > 0,
    ensures
        r matches Some(i) ==> find(s@, sep@) == Some(i as int),
        r is None ==> find(s@, sep@) is None,
{
    if sep.len() > s.len() {
        return None;
    }
    let last = s.len() - sep.len();
    let mut i: usize = 0;
    while i <= last
        invariant
            last == s.len() - sep.len(),
            sep.len() > 0,
            i <= last + 1,
            find_from(s@, sep@, 0) == find_from(s@, sep@, i as int),
        decreases last + 1 - i,
    {
        if occurs_at_exec(s, sep, i) {
            return Some(i);
        }
        i += 1;
    }
    None
}

/// The decimal digits of `n`.
pub fn decimal_chars(n: u64) -> (r: Vec<char>)
    ensures
        r@ == decimal(n as nat),
    decreases n,
{
    let digits = vec!['0', '1', '2', '3', '4', '5', '6', '7', '8', '9'];
    assert(digits@ == seq!['0', '1', '2', '3', '4', '5', '6', '7', '8', '9']);
    if n < 10 {
        vec![digits[n as usize]]
    } else {
        let mut r = decimal_chars(n / 10);
        r.push(digits[(n % 10) as usize]);
        r
    }
}

/// The characters of `s` from index `from` up to, not including, `to`.
pub fn sub_chars(s: &Vec<char>, from: usize, to: usize) -> (r: Vec<char>)
    requires
        from <= to <= s.len(),
    ensures
        r@ == s@.subrange(from as int, to as int),
{
    let mut r: Vec<char> = Vec::new();
    let mut i: usize = from;
    while i < to
        invariant
            from <= i <= to <= s.len(),
            r@ == s@.subrange(from as int, i as int),
        decreases to - i,
    {
        r.push(s[i]);
        i += 1;
        assert(r@ =~= s@.subrange(from as int, i as int));
    }
    r
}

/// Appends the characters of `s` to `out`.
pub fn push_str(out: &mut Vec<char>, s: &str)
    ensures
        final(out)@ == old(out)@ + s@,
{
    let mut v = chars_of(s);
    out.append(&mut v);
}

} // verus!
