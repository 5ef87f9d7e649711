//! The response formatter: status line, normalised and sorted headers, and
//! the body, pretty-printed where it is a JSON object.
use vstd::prelude::*;

use vstd::string::StringSliceAdditionalSpecFns;

use crate::json::{json_object_valid, pretty_object, pretty_object_of};
use crate::request::pairs_view;
use crate::text::{chars_of, decimal, decimal_chars, push_str, string_of};

verus! {

/// What heck's title case makes of a text.
pub uninterp spec fn title_case_of(s: Seq<char>) -> Seq<char>;

/// Relies on `heck::TitleCase::to_title_case`: words split at case changes,
/// `-`, `_` and spaces, each capitalised, joined by single spaces. The result
/// depends on the text alone.
#[verifier::external_body]
fn title_case(s: &str) -> (r: String)
    ensures
        r@ == title_case_of(s@),
{
    heck::TitleCase::to_title_case(s)
}

/// `s` with every space turned into `-`.
pub open spec fn dashed(s: Seq<char>) -> Seq<char> {
    s.map_values(|c: char| if c == ' ' { '-' } else { c })
}

/// The printed name of header `raw`: title case, words joined by `-`.
pub open spec fn header_name(raw: Seq<char>) -> Seq<char> {
    dashed(title_case_of(raw))
}

/// Turns every space of `s` into `-`.
pub fn dash_spaces(s: &str) -> (r: String)
    ensures
        r@ == dashed(s@),
{
    let v = chars_of(s);
    let mut out: Vec<char> = Vec::new();
    let mut i: usize = 0;
    while i < v.len()
        invariant
            i <= v.len(),
            out@ == dashed(v@.subrange(0, i as int)),
        decreases v.len() - i,
    {
        if v[i] == ' ' {
            out.push('-');
        } else {
            out.push(v[i]);
        }
        i += 1;
        assert(out@ =~= dashed(v@.subrange(0, i as int)));
    }
    assert(v@.subrange(0, v.len() as int) =~= v@);
    string_of(&out)
}

/// The printed name of a header: `content-type` becomes `Content-Type`.
pub fn normalize_header_name(raw: &str) -> (r: String)
    ensures
        r@ == header_name(raw@),
{
    let t = title_case(raw);
    dash_spaces(t.as_str())
}

/// `a` comes before or equals `b` in the order of characters, compared from
/// index `i` on.
pub open spec fn name_le_from(a: Seq<char>, b: Seq<char>, i: int) -> bool
    decreases a.len() - i,
{
    if i < 0 || i >= a.len() {
        true
    } else if i >= b.len() {
        false
    } else if (a[i] as u32) < (b[i] as u32) {
        true
    } else if (a[i] as u32) > (b[i] as u32) {
        false
    } else {
        name_le_from(a, b, i + 1)
    }
}

/// Lexicographic order of names.
pub open spec fn name_le(a: Seq<char>, b: Seq<char>) -> bool {
    name_le_from(a, b, 0)
}

/// Header entries in order of name, and of value where names are equal.
pub open spec fn entry_le(x: (Seq<char>, Seq<char>), y: (Seq<char>, Seq<char>)) -> bool {
    if x.0 == y.0 {
        name_le(x.1, y.1)
    } else {
        name_le(x.0, y.0)
    }
}

/// Where `x` goes in `s`: after every entry, from the end, that does not
/// come after it.
pub open spec fn insert_pos(s: Seq<(Seq<char>, Seq<char>)>, x: (Seq<char>, Seq<char>)) -> int
    decreases s.len(),
{
    if s.len() == 0 {
        0
    } else if entry_le(s.last(), x) {
        s.len() as int
    } else {
        insert_pos(s.drop_last(), x)
    }
}

/// `s` with `x` inserted in order.
pub open spec fn insert_sorted(s: Seq<(Seq<char>, Seq<char>)>, x: (Seq<char>, Seq<char>)) -> Seq<
    (Seq<char>, Seq<char>),
> {
    s.insert(insert_pos(s, x), x)
}

/// The header entries sorted by name, then by value.
pub open spec fn sort_headers(s: Seq<(Seq<char>, Seq<char>)>) -> Seq<(Seq<char>, Seq<char>)>
    decreases s.len(),
{
    if s.len() == 0 {
        s
    } else {
        insert_sorted(sort_headers(s.drop_last()), s.last())
    }
}

/// Entries in order of name, then of value.
pub open spec fn sorted_headers(s: Seq<(Seq<char>, Seq<char>)>) -> bool {
    forall|i: int, j: int| 0 <= i < j < s.len() ==> entry_le(#[trigger] s[i], #[trigger] s[j])
}

proof fn lemma_le_total_from(a: Seq<char>, b: Seq<char>, i: int)
    requires
        0 <= i,
    ensures
        name_le_from(a, b, i) || name_le_from(b, a, i),
    decreases a.len() - i,
{
    if i < a.len() && i < b.len() && (a[i] as u32) == (b[i] as u32) {
        lemma_le_total_from(a, b, i + 1);
    }
}

proof fn lemma_le_trans_from(a: Seq<char>, b: Seq<char>, c: Seq<char>, i: int)
    requires
        0 <= i,
        name_le_from(a, b, i),
        name_le_from(b, c, i),
    ensures
        name_le_from(a, c, i),
    decreases a.len() - i,
{
    if i < a.len() && i < b.len() && i < c.len() && (a[i] as u32) == (b[i] as u32) && (b[i] as u32)
        == (c[i] as u32) {
        lemma_le_trans_from(a, b, c, i + 1);
    }
}

proof fn lemma_char_code_injective(x: char, y: char)
    requires
        (x as u32) == (y as u32),
    ensures
        x == y,
{
    assert((x as int) == (y as int));
}

proof fn lemma_le_antisym_from(a: Seq<char>, b: Seq<char>, i: int)
    requires
        0 <= i <= a.len(),
        i <= b.len(),
        name_le_from(a, b, i),
        name_le_from(b, a, i),
    ensures
        a.len() == b.len(),
        forall|k: int| i <= k < a.len() ==> a[k] == b[k],
    decreases a.len() - i,
{
    if i < a.len() {
        lemma_char_code_injective(a[i], b[i]);
        lemma_le_antisym_from(a, b, i + 1);
    }
}

proof fn lemma_le_antisym(a: Seq<char>, b: Seq<char>)
    requires
        name_le(a, b),
        name_le(b, a),
    ensures
        a == b,
{
    lemma_le_antisym_from(a, b, 0);
    assert(a =~= b);
}

proof fn lemma_entry_total(x: (Seq<char>, Seq<char>), y: (Seq<char>, Seq<char>))
    ensures
        entry_le(x, y) || entry_le(y, x),
{
    lemma_le_total_from(x.0, y.0, 0);
    lemma_le_total_from(x.1, y.1, 0);
}

proof fn lemma_entry_trans(
    x: (Seq<char>, Seq<char>),
    y: (Seq<char>, Seq<char>),
    z: (Seq<char>, Seq<char>),
)
    requires
        entry_le(x, y),
        entry_le(y, z),
    ensures
        entry_le(x, z),
{
    if x.0 == y.0 && y.0 == z.0 {
        lemma_le_trans_from(x.1, y.1, z.1, 0);
    } else if x.0 != y.0 && y.0 != z.0 {
        lemma_le_trans_from(x.0, y.0, z.0, 0);
        if x.0 == z.0 {
            lemma_le_antisym(y.0, z.0);
        }
    }
}

proof fn lemma_entry_antisym(x: (Seq<char>, Seq<char>), y: (Seq<char>, Seq<char>))
    requires
        entry_le(x, y),
        entry_le(y, x),
    ensures
        x == y,
{
    if x.0 == y.0 {
        lemma_le_antisym(x.1, y.1);
    } else {
        lemma_le_antisym(x.0, y.0);
    }
}

proof fn lemma_insert_pos(s: Seq<(Seq<char>, Seq<char>)>, x: (Seq<char>, Seq<char>))
    ensures
        0 <= insert_pos(s, x) <= s.len(),
        forall|k: int| insert_pos(s, x) <= k < s.len() ==> !entry_le(#[trigger] s[k], x),
        insert_pos(s, x) > 0 ==> entry_le(s[insert_pos(s, x) - 1], x),
    decreases s.len(),
{
    if s.len() > 0 && !entry_le(s.last(), x) {
        lemma_insert_pos(s.drop_last(), x);
        let p = insert_pos(s, x);
        assert forall|k: int| p <= k < s.len() implies !entry_le(#[trigger] s[k], x) by {
            if k < s.len() - 1 {
                assert(s.drop_last()[k] == s[k]);
            }
        }
    }
}

proof fn lemma_insert_sorted(s: Seq<(Seq<char>, Seq<char>)>, x: (Seq<char>, Seq<char>))
    requires
        sorted_headers(s),
    ensures
        sorted_headers(insert_sorted(s, x)),
        insert_sorted(s, x).to_multiset() == s.to_multiset().insert(x),
{
    lemma_insert_pos(s, x);
    let p = insert_pos(s, x);
    let t = insert_sorted(s, x);
    vstd::seq_lib::to_multiset_insert(s, p, x);
    assert forall|i: int, j: int| 0 <= i < j < t.len() implies entry_le(
        #[trigger] t[i],
        #[trigger] t[j],
    ) by {
        if j < p {
            assert(t[i] == s[i] && t[j] == s[j]);
        } else if j == p {
            assert(t[j] == x);
            assert(t[i] == s[i]);
            if i < p - 1 {
                lemma_entry_trans(s[i], s[p - 1], x);
            }
        } else if i == p {
            assert(t[i] == x && t[j] == s[j - 1]);
            lemma_entry_total(s[j - 1], x);
        } else if i < p {
            assert(t[i] == s[i] && t[j] == s[j - 1]);
        } else {
            assert(t[i] == s[i - 1] && t[j] == s[j - 1]);
        }
    }
}

/// The header sort sorts: its result is in order of name, then of value, and
/// holds the same entries, each as often, as its input.
pub proof fn lemma_sort_headers(s: Seq<(Seq<char>, Seq<char>)>)
    ensures
        sorted_headers(sort_headers(s)),
        sort_headers(s).to_multiset() == s.to_multiset(),
    decreases s.len(),
{
    if s.len() > 0 {
        lemma_sort_headers(s.drop_last());
        lemma_insert_sorted(sort_headers(s.drop_last()), s.last());
        vstd::seq_lib::to_multiset_build(s.drop_last(), s.last());
        assert(s.drop_last().push(s.last()) =~= s);
    }
}

/// Two sorted lists of the same entries are the same list.
proof fn lemma_sorted_unique(a: Seq<(Seq<char>, Seq<char>)>, b: Seq<(Seq<char>, Seq<char>)>)
    requires
        sorted_headers(a),
        sorted_headers(b),
        a.to_multiset() == b.to_multiset(),
    ensures
        a == b,
    decreases a.len(),
{
    broadcast use vstd::seq_lib::group_to_multiset_ensures;

    assert(a.to_multiset().len() == a.len());
    assert(b.to_multiset().len() == b.len());
    if a.len() > 0 {
        assert(a.to_multiset().count(a[0]) > 0) by {
            assert(a.contains(a[0]));
        }
        assert(b.contains(a[0]));
        let j = choose|j: int| 0 <= j < b.len() && b[j] == a[0];
        assert(b.to_multiset().count(b[0]) > 0) by {
            assert(b.contains(b[0]));
        }
        assert(a.contains(b[0]));
        let k = choose|k: int| 0 <= k < a.len() && a[k] == b[0];
        if j > 0 {
            assert(entry_le(b[0], b[j]));
        }
        if k > 0 {
            assert(entry_le(a[0], a[k]));
        }
        lemma_entry_total(a[0], b[0]);
        if a[0] != b[0] {
            lemma_entry_antisym(a[0], b[0]);
        }
        vstd::seq_lib::to_multiset_remove(a, 0);
        vstd::seq_lib::to_multiset_remove(b, 0);
        assert(a.remove(0) =~= a.drop_first());
        assert(b.remove(0) =~= b.drop_first());
        assert(sorted_headers(a.drop_first())) by {
            assert forall|i: int, jj: int| 0 <= i < jj < a.drop_first().len() implies entry_le(
                #[trigger] a.drop_first()[i],
                #[trigger] a.drop_first()[jj],
            ) by {
                assert(a.drop_first()[i] == a[i + 1] && a.drop_first()[jj] == a[jj + 1]);
            }
        }
        assert(sorted_headers(b.drop_first())) by {
            assert forall|i: int, jj: int| 0 <= i < jj < b.drop_first().len() implies entry_le(
                #[trigger] b.drop_first()[i],
                #[trigger] b.drop_first()[jj],
            ) by {
                assert(b.drop_first()[i] == b[i + 1] && b.drop_first()[jj] == b[jj + 1]);
            }
        }
        lemma_sorted_unique(a.drop_first(), b.drop_first());
        assert(a[0] == b[0]);
        assert forall|k: int| 0 <= k < a.len() implies a[k] == b[k] by {
            if k > 0 {
                assert(a[k] == a.drop_first()[k - 1] && b[k] == b.drop_first()[k - 1]);
            }
        }
        assert(a =~= b);
    }
}

/// The header order does not depend on the order in which headers arrived:
/// the same entries, in any order, sort to the same list.
pub proof fn lemma_sort_headers_order_free(
    s1: Seq<(Seq<char>, Seq<char>)>,
    s2: Seq<(Seq<char>, Seq<char>)>,
)
    requires
        s1.to_multiset() == s2.to_multiset(),
    ensures
        sort_headers(s1) == sort_headers(s2),
{
    lemma_sort_headers(s1);
    lemma_sort_headers(s2);
    lemma_sorted_unique(sort_headers(s1), sort_headers(s2));
}

/// `Name: value`.
pub open spec fn line_text(e: (Seq<char>, Seq<char>)) -> Seq<char> {
    e.0 + seq![':', ' '] + e.1
}

/// The header lines joined by line breaks.
pub open spec fn lines_text(s: Seq<(Seq<char>, Seq<char>)>) -> Seq<char>
    decreases s.len(),
{
    if s.len() == 0 {
        Seq::empty()
    } else if s.len() == 1 {
        line_text(s[0])
    } else {
        lines_text(s.drop_last()) + seq!['\n'] + line_text(s.last())
    }
}

/// `Content-Length`.
pub open spec fn content_length_name() -> Seq<char> {
    seq!['C', 'o', 'n', 't', 'e', 'n', 't', '-', 'L', 'e', 'n', 'g', 't', 'h']
}

/// `Unknown`, the reason phrase where the status has none.
pub open spec fn unknown_reason() -> Seq<char> {
    seq!['U', 'n', 'k', 'n', 'o', 'w', 'n']
}

/// `version code reason`.
pub open spec fn status_line(version: Seq<char>, code: u16, reason: Seq<char>) -> Seq<char> {
    version + seq![' '] + decimal(code as nat) + seq![' '] + reason
}

/// The printed response: the status line, the headers with the content
/// length among them sorted by name and then by value, then the body, each ended by a line
/// break. Header names are taken as already normalised.
pub open spec fn response_text(
    version: Seq<char>,
    code: u16,
    reason: Seq<char>,
    headers: Seq<(Seq<char>, Seq<char>)>,
    length: u64,
    body: Seq<char>,
) -> Seq<char> {
    status_line(version, code, reason) + seq!['\n'] + lines_text(
        sort_headers(headers.push((content_length_name(), decimal(length as nat)))),
    ) + seq!['\n'] + body + seq!['\n']
}

/// Character pairs, viewed as sequences.
pub open spec fn char_pairs_view(m: Seq<(Vec<char>, Vec<char>)>) -> Seq<(Seq<char>, Seq<char>)> {
    m.map_values(|e: (Vec<char>, Vec<char>)| (e.0@, e.1@))
}

/// Whether `a` comes before or equals `b`, character by character.
pub fn name_le_exec(a: &Vec<char>, b: &Vec<char>) -> (r: bool)
    ensures
        r == name_le(a@, b@),
{
    let mut i: usize = 0;
    while i < a.len()
        invariant
            name_le_from(a@, b@, 0) == name_le_from(a@, b@, i as int),
        decreases a.len() - i,
    {
        if i >= b.len() {
            return false;
        }
        if (a[i] as u32) < (b[i] as u32) {
            return true;
        }
        if (a[i] as u32) > (b[i] as u32) {
            return false;
        }
        i += 1;
    }
    true
}

/// Whether two character sequences are equal.
fn chars_eq(a: &Vec<char>, b: &Vec<char>) -> (r: bool)
    ensures
        r == (a@ == b@),
{
    if a.len() != b.len() {
        return false;
    }
    let mut i: usize = 0;
    while i < a.len()
        invariant
            i <= a.len() == b.len(),
            forall|k: int| 0 <= k < i ==> a@[k] == b@[k],
        decreases a.len() - i,
    {
        if a[i] != b[i] {
            return false;
        }
        i += 1;
    }
    assert(a@ =~= b@);
    true
}

/// Whether header entry `a` comes before or equals `b`: by name, then by value.
pub fn entry_le_exec(a: &(Vec<char>, Vec<char>), b: &(Vec<char>, Vec<char>)) -> (r: bool)
    ensures
        r == entry_le((a.0@, a.1@), (b.0@, b.1@)),
{
    if chars_eq(&a.0, &b.0) {
        name_le_exec(&a.1, &b.1)
    } else {
        name_le_exec(&a.0, &b.0)
    }
}

/// Inserts `x` into `out` in order, after the entries that do not come after it.
fn insert_entry(out: &mut Vec<(Vec<char>, Vec<char>)>, x: (Vec<char>, Vec<char>))
    ensures
        char_pairs_view(final(out)@) == insert_sorted(char_pairs_view(old(out)@), (x.0@, x.1@)),
{
    let ghost s = char_pairs_view(out@);
    let ghost xv = (x.0@, x.1@);
    let mut j: usize = out.len();
    let mut done = false;
    assert(s.subrange(0, j as int) =~= s);
    while j > 0 && !done
        invariant
            j <= out.len(),
            s == char_pairs_view(out@),
            xv == (x.0@, x.1@),
            insert_pos(s, xv) == insert_pos(s.subrange(0, j as int), xv),
            done ==> j > 0 && entry_le(s[j - 1], xv),
        decreases j, (if done { 0int } else { 1int }),
    {
        assert(s[j - 1] == (out@[j - 1].0@, out@[j - 1].1@));
        assert(s.subrange(0, j as int).last() == s[j - 1]);
        let le = entry_le_exec(&out[j - 1], &x);
        if le {
            done = true;
        } else {
            assert(s.subrange(0, j as int).drop_last() =~= s.subrange(0, j - 1));
            j -= 1;
        }
    }
    assert(insert_pos(s.subrange(0, j as int), xv) == j);
    out.insert(j, x);
    assert(char_pairs_view(out@) =~= insert_sorted(s, xv));
}

/// Appends `line_text(e)` to `out`.
fn push_line(out: &mut Vec<char>, name: &Vec<char>, value: &Vec<char>)
    ensures
        final(out)@ == old(out)@ + line_text((name@, value@)),
{
    let mut i: usize = 0;
    let ghost start = out@;
    while i < name.len()
        invariant
            i <= name.len(),
            out@ == start + name@.subrange(0, i as int),
        decreases name.len() - i,
    {
        out.push(name[i]);
        i += 1;
        assert(out@ =~= start + name@.subrange(0, i as int));
    }
    out.push(':');
    out.push(' ');
    let ghost mid = out@;
    let mut k: usize = 0;
    while k < value.len()
        invariant
            k <= value.len(),
            out@ == mid + value@.subrange(0, k as int),
        decreases value.len() - k,
    {
        out.push(value[k]);
        k += 1;
        assert(out@ =~= mid + value@.subrange(0, k as int));
    }
    assert(name@.subrange(0, name.len() as int) =~= name@);
    assert(value@.subrange(0, value.len() as int) =~= value@);
    assert(out@ =~= start + line_text((name@, value@)));
}

/// Prints a response whose header names are already normalised: the status
/// line, the headers and a `Content-Length` of `length` sorted by name and
/// value, then
/// `body`.
pub fn render_response(
    version: &str,
    code: u16,
    reason: &str,
    headers: &Vec<(String, String)>,
    length: u64,
    body: &str,
) -> (r: String)
    ensures
        r@ == response_text(
            version@,
            code,
            reason@,
            pairs_view(headers@),
            length,
            body@,
        ),
{
    let ghost hv = pairs_view(headers@);
    let ghost all = hv.push((content_length_name(), decimal(length as nat)));
    let mut sorted: Vec<(Vec<char>, Vec<char>)> = Vec::new();
    let mut i: usize = 0;
    while i < headers.len()
        invariant
            i <= headers.len(),
            hv == pairs_view(headers@),
            all == hv.push((content_length_name(), decimal(length as nat))),
            char_pairs_view(sorted@) == sort_headers(all.subrange(0, i as int)),
        decreases headers.len() - i,
    {
        assert(all.subrange(0, i + 1int).drop_last() =~= all.subrange(0, i as int));
        let name = chars_of(headers[i].0.as_str());
        let value = chars_of(headers[i].1.as_str());
        insert_entry(&mut sorted, (name, value));
        i += 1;
    }
    let cl = vec!['C', 'o', 'n', 't', 'e', 'n', 't', '-', 'L', 'e', 'n', 'g', 't', 'h'];
    assert(cl@ == content_length_name());
    assert(all.subrange(0, i + 1int).drop_last() =~= all.subrange(0, i as int));
    insert_entry(&mut sorted, (cl, decimal_chars(length)));
    assert(all.subrange(0, i + 1int) =~= all);
    let ghost sv = char_pairs_view(sorted@);
    let mut out = chars_of(version);
    out.push(' ');
    let mut digits = decimal_chars(code as u64);
    out.append(&mut digits);
    out.push(' ');
    push_str(&mut out, reason);
    out.push('\n');
    let ghost head = out@;
    assert(head == status_line(version@, code, reason@) + seq!['\n']);
    let mut j: usize = 0;
    while j < sorted.len()
        invariant
            j <= sorted.len(),
            sv == char_pairs_view(sorted@),
            out@ == head + lines_text(sv.subrange(0, j as int)),
        decreases sorted.len() - j,
    {
        let ghost before = out@;
        assert(sv.subrange(0, j + 1int).drop_last() =~= sv.subrange(0, j as int));
        if j > 0 {
            out.push('\n');
        }
        push_line(&mut out, &sorted[j].0, &sorted[j].1);
        proof {
            if j == 0 {
                assert(out@ =~= before + line_text(sv[0]));
            } else {
                assert(out@ =~= before + seq!['\n'] + line_text(sv[j as int]));
            }
        }
        j += 1;
    }
    assert(sv.subrange(0, sorted.len() as int) =~= sv);
    out.push('\n');
    push_str(&mut out, body);
    out.push('\n');
    assert(out@ =~= response_text(version@, code, reason@, hv, length, body@));
    string_of(&out)
}

/// The reason phrase, `Unknown` where the status has none.
pub open spec fn reason_text(reason: Option<&str>) -> Seq<char> {
    match reason {
        Some(s) => s@,
        None => unknown_reason(),
    }
}

/// The headers with their names normalised.
pub open spec fn normalized(h: Seq<(String, String)>) -> Seq<(Seq<char>, Seq<char>)> {
    h.map_values(|e: (String, String)| (header_name(e.0@), e.1@))
}

/// The content length to print: the one the transport reports, else the
/// length in bytes of the body received.
pub open spec fn resolved_length(reported: Option<u64>, body: &str) -> u64 {
    match reported {
        Some(n) => n,
        None => body.spec_bytes().len() as usize as u64,
    }
}

/// The body as printed: a JSON object pretty-printed with its keys sorted,
/// anything else as it came.
pub open spec fn shown_body(body: Seq<char>) -> Seq<char> {
    if json_object_valid(body) {
        pretty_object_of(body)
    } else {
        body
    }
}

/// The text that `format_response` prints.
pub open spec fn formatted(
    version: &str,
    code: u16,
    reason: Option<&str>,
    headers: Seq<(String, String)>,
    body: &str,
    content_length: Option<u64>,
) -> Seq<char> {
    response_text(
        version@,
        code,
        reason_text(reason),
        normalized(headers),
        resolved_length(content_length, body),
        shown_body(body@),
    )
}

/// Prints a received response: status line, normalised headers sorted by
/// name and then value, with the content length among them, and the body. A
/// JSON object is pretty-printed with its keys sorted; any other body, JSON
/// or not, is printed as it came. Formatting never fails.
pub fn format_response(
    version: &str,
    code: u16,
    reason: Option<&str>,
    headers: &Vec<(String, String)>,
    body: &str,
    content_length: Option<u64>,
) -> (r: String)
    ensures
        r@ == formatted(version, code, reason, headers@, body, content_length),
{
    let mut names: Vec<(String, String)> = Vec::new();
    let mut i: usize = 0;
    while i < headers.len()
        invariant
            i <= headers.len(),
            pairs_view(names@) == normalized(
                headers@.subrange(0, i as int),
            ),
        decreases headers.len() - i,
    {
        let ghost prev = names@;
        let name = normalize_header_name(headers[i].0.as_str());
        let value = headers[i].1.clone();
        let ghost entry = (name@, value@);
        assert(entry == (header_name(headers@[i as int].0@), headers@[i as int].1@));
        names.push((name, value));
        assert(pairs_view(names@) =~= pairs_view(prev).push(entry));
        assert(normalized(headers@.subrange(0, i + 1int)) =~= normalized(
            headers@.subrange(0, i as int),
        ).push(entry));
        i += 1;
    }
    assert(headers@.subrange(0, headers.len() as int) =~= headers@);
    let unknown = "Unknown";
    proof {
        reveal_strlit("Unknown");
    }
    let reason_shown = match reason {
        Some(s) => s,
        None => unknown,
    };
    assert(reason_shown@ == reason_text(reason));
    let length = match content_length {
        Some(n) => n,
        None => body.len() as u64,
    };
    let shown = match pretty_object(body) {
        Some(p) => p,
        None => body.to_owned(),
    };
    assert(pairs_view(names@) == normalized(headers@));
    assert(length == resolved_length(content_length, body));
    let r = render_response(version, code, reason_shown, &names, length, shown.as_str());
    assert(r@ == response_text(
        version@,
        code,
        reason_text(reason),
        normalized(headers@),
        resolved_length(content_length, body),
        shown@,
    ));
    assert(shown@ == shown_body(body@));
    r
}

/// Formatting the same response twice gives byte-identical text: any two
/// texts that `format_response` may give for the same status, headers, body
/// and reported length are equal.
pub proof fn lemma_format_idempotent(
    version: &str,
    code: u16,
    reason: Option<&str>,
    headers: Seq<(String, String)>,
    body: &str,
    content_length: Option<u64>,
    first: Seq<char>,
    second: Seq<char>,
)
    requires
        first == formatted(version, code, reason, headers, body, content_length),
        second == formatted(version, code, reason, headers, body, content_length),
    ensures
        first == second,
{
}

} // verus!
