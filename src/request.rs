//! The request builder: folds parameters into one request description.
use vstd::prelude::*;

use crate::json::{
    json_object, json_object_of, json_of, json_string, json_string_of, json_valid, members_view,
    parse_json,
};
use crate::parameter::{HurlError, Parameter};
use crate::text::{chars_of, find, find_exec, push_str, string_of, sub_chars};

verus! {

/// The HTTP methods that a request can use.
#[derive(Clone, Copy, Debug, PartialEq, Eq, Structural)]
pub enum Method {
    Head,
    Get,
    Post,
    Put,
    Patch,
    Delete,
}

/// The value of one body field.
#[derive(Clone, Debug, PartialEq)]
pub enum FieldValue {
    /// A string, sent as a JSON string or a form field.
    Text(String),
    /// A JSON value, sent as it is.
    Json(serde_json::Value),
}

/// What the parameters put in a body field: a text, a JSON value, or the
/// JSON value that a text holds.
pub enum FieldSpec {
    Text(Seq<char>),
    Json(serde_json::Value),
    JsonText(Seq<char>),
}

/// Field value `v` is what `s` describes.
pub open spec fn field_matches(v: FieldValue, s: FieldSpec) -> bool {
    match s {
        FieldSpec::Text(t) => v matches FieldValue::Text(u) && u@ == t,
        FieldSpec::Json(j) => v matches FieldValue::Json(w) && w == j,
        FieldSpec::JsonText(t) => json_valid(t) && (v matches FieldValue::Json(w) && w == json_of(t)),
    }
}

/// A body field's value as JSON: the string of a text, or the value itself.
pub open spec fn json_value(v: FieldValue) -> serde_json::Value {
    match v {
        FieldValue::Text(t) => json_string_of(t@),
        FieldValue::Json(j) => j,
    }
}

/// The body fields as members of a JSON object, in order.
pub open spec fn json_members(body: Seq<(String, FieldValue)>) -> Seq<(Seq<char>, serde_json::Value)> {
    body.map_values(|e: (String, FieldValue)| (e.0@, json_value(e.1)))
}

/// The first index from `i` on at which `keys` holds `k`.
pub open spec fn key_index_from(keys: Seq<Seq<char>>, k: Seq<char>, i: int) -> Option<int>
    decreases keys.len() - i,
{
    if i < 0 || i >= keys.len() {
        None
    } else if keys[i] == k {
        Some(i)
    } else {
        key_index_from(keys, k, i + 1)
    }
}

/// Where `key_index_from` answers, the index is in range and holds `k`.
pub proof fn lemma_key_index_from(keys: Seq<Seq<char>>, k: Seq<char>, i: int)
    ensures
        key_index_from(keys, k, i) matches Some(j) ==> i <= j < keys.len() && 0 <= j && keys[j]
            == k,
    decreases keys.len() - i,
{
    if 0 <= i < keys.len() && keys[i] != k {
        lemma_key_index_from(keys, k, i + 1);
    }
}

/// The first index at which `keys` holds `k`.
pub open spec fn key_index(keys: Seq<Seq<char>>, k: Seq<char>) -> Option<int> {
    key_index_from(keys, k, 0)
}

/// The keys of an ordered mapping.
pub open spec fn keys_of<V>(m: Seq<(Seq<char>, V)>) -> Seq<Seq<char>> {
    m.map_values(|e: (Seq<char>, V)| e.0)
}

/// The keys of an ordered mapping held in strings.
pub open spec fn string_keys<V>(m: Seq<(String, V)>) -> Seq<Seq<char>> {
    m.map_values(|e: (String, V)| e.0@)
}

/// Sets key `k` to `v`: in place where `k` is present, at the end where not.
pub open spec fn upsert<V>(m: Seq<(Seq<char>, V)>, k: Seq<char>, v: V) -> Seq<(Seq<char>, V)> {
    match key_index(keys_of(m), k) {
        Some(i) => m.update(i, (k, v)),
        None => m.push((k, v)),
    }
}

/// `upsert` on an ordered mapping held in strings.
pub open spec fn upsert_strings<V>(m: Seq<(String, V)>, k: String, v: V) -> Seq<(String, V)> {
    match key_index(string_keys(m), k@) {
        Some(i) => m.update(i, (k, v)),
        None => m.push((k, v)),
    }
}

/// A list of string pairs, viewed as character sequences.
pub open spec fn pairs_view(m: Seq<(String, String)>) -> Seq<(Seq<char>, Seq<char>)> {
    m.map_values(|e: (String, String)| (e.0@, e.1@))
}

/// Body fields `e` hold what `s` describes, key by key and in the same order.
pub open spec fn body_matches(e: Seq<(String, FieldValue)>, s: Seq<(Seq<char>, FieldSpec)>) -> bool {
    e.len() == s.len() && forall|j: int|
        0 <= j < e.len() ==> (#[trigger] e[j]).0@ == s[j].0 && field_matches(e[j].1, s[j].1)
}

/// The contents that the file table gives for `path`.
pub open spec fn lookup(table: Seq<(Seq<char>, Seq<char>)>, path: Seq<char>) -> Option<Seq<char>> {
    match key_index(keys_of(table), path) {
        Some(i) => Some(table[i].1),
        None => None,
    }
}

/// The contents that the file table gives for `path`, or nothing.
pub open spec fn contents(table: Seq<(Seq<char>, Seq<char>)>, path: Seq<char>) -> Seq<char> {
    match lookup(table, path) {
        Some(c) => c,
        None => Seq::empty(),
    }
}

/// The headers that parameters `ps` set: the last value of a key wins, at
/// the place where the key first came.
pub open spec fn headers_of(ps: Seq<Parameter>) -> Seq<(Seq<char>, Seq<char>)>
    decreases ps.len(),
{
    if ps.len() == 0 {
        Seq::empty()
    } else {
        let prev = headers_of(ps.drop_last());
        match ps.last() {
            Parameter::Header { key, value } => upsert(prev, key@, value@),
            _ => prev,
        }
    }
}

/// The query parameters of `ps`, every one of them, in order.
pub open spec fn queries_of(ps: Seq<Parameter>) -> Seq<(Seq<char>, Seq<char>)>
    decreases ps.len(),
{
    if ps.len() == 0 {
        Seq::empty()
    } else {
        let prev = queries_of(ps.drop_last());
        match ps.last() {
            Parameter::Query { key, value } => prev.push((key@, value@)),
            _ => prev,
        }
    }
}

/// The file uploads of `ps`, as (field name, file name), in order.
pub open spec fn uploads_of(ps: Seq<Parameter>) -> Seq<(Seq<char>, Seq<char>)>
    decreases ps.len(),
{
    if ps.len() == 0 {
        Seq::empty()
    } else {
        let prev = uploads_of(ps.drop_last());
        match ps.last() {
            Parameter::FileUpload { key, filename } => prev.push((key@, filename@)),
            _ => prev,
        }
    }
}

/// The body fields of `ps`, files read from `table`: the last value of a key
/// wins, at the place where the key first came.
pub open spec fn body_of(ps: Seq<Parameter>, table: Seq<(Seq<char>, Seq<char>)>) -> Seq<
    (Seq<char>, FieldSpec),
>
    decreases ps.len(),
{
    if ps.len() == 0 {
        Seq::empty()
    } else {
        let prev = body_of(ps.drop_last(), table);
        match ps.last() {
            Parameter::DataField { key, value } => upsert(prev, key@, FieldSpec::Text(value@)),
            Parameter::DataFieldFromFile { key, filename } => upsert(
                prev,
                key@,
                FieldSpec::Text(contents(table, filename@)),
            ),
            Parameter::RawJsonField { key, json } => upsert(prev, key@, FieldSpec::Json(json)),
            Parameter::RawJsonFieldFromFile { key, filename } => upsert(
                prev,
                key@,
                FieldSpec::JsonText(contents(table, filename@)),
            ),
            _ => prev,
        }
    }
}

/// Parameter `p` cannot go into a request: an upload outside form mode, a
/// file that the table lacks, or a JSON file that is not JSON.
pub open spec fn fails(p: Parameter, table: Seq<(Seq<char>, Seq<char>)>, form: bool) -> bool {
    match p {
        Parameter::FileUpload { .. } => !form,
        Parameter::DataFieldFromFile { filename, .. } => lookup(table, filename@) is None,
        Parameter::RawJsonFieldFromFile { filename, .. } => lookup(table, filename@) is None
            || !json_valid(contents(table, filename@)),
        _ => false,
    }
}

/// `e` is the error that parameter `p` gives.
pub open spec fn build_error_for(
    e: HurlError,
    p: Parameter,
    table: Seq<(Seq<char>, Seq<char>)>,
    form: bool,
) -> bool {
    match p {
        Parameter::FileUpload { key, .. } => !form && (
        e matches HurlError::FileUploadRequiresForm { key: ek } && ek@ == key@),
        Parameter::DataFieldFromFile { filename, .. } => lookup(table, filename@) is None && (
        e matches HurlError::FileReadError { path } && path@ == filename@),
        Parameter::RawJsonFieldFromFile { key, filename } => if lookup(table, filename@) is None {
            e matches HurlError::FileReadError { path } && path@ == filename@
        } else {
            !json_valid(contents(table, filename@)) && (
            e matches HurlError::InvalidJson { key: ek, .. } && ek@ == key@)
        },
        _ => false,
    }
}

/// Some parameter of `ps` goes into the body.
pub open spec fn has_data(ps: Seq<Parameter>) -> bool {
    exists|i: int| 0 <= i < ps.len() && (#[trigger] ps[i]).is_data_spec()
}

/// The method of the request: the one asked for, else POST where a parameter
/// goes into the body and GET where none does.
pub open spec fn method_for(cmd: Option<Method>, ps: Seq<Parameter>) -> Method {
    match cmd {
        Some(m) => m,
        None => if has_data(ps) {
            Method::Post
        } else {
            Method::Get
        },
    }
}

/// `key=value`.
pub open spec fn pair_text(e: (Seq<char>, Seq<char>)) -> Seq<char> {
    e.0 + seq!['='] + e.1
}

/// The query pairs joined by `&`.
pub open spec fn query_text(q: Seq<(Seq<char>, Seq<char>)>) -> Seq<char>
    decreases q.len(),
{
    if q.len() == 0 {
        Seq::empty()
    } else if q.len() == 1 {
        pair_text(q[0])
    } else {
        query_text(q.drop_last()) + seq!['&'] + pair_text(q.last())
    }
}

/// The URL with its query string, where there is one.
pub open spec fn target_of(url: Seq<char>, q: Seq<(Seq<char>, Seq<char>)>) -> Seq<char> {
    if q.len() == 0 {
        url
    } else {
        url + seq!['?'] + query_text(q)
    }
}

/// Everything the transport needs to send one request.
pub struct RequestSpec {
    pub method: Method,
    pub url: String,
    /// Header name and value, each name once.
    pub headers: Vec<(String, String)>,
    /// Query key and value, repeated keys kept.
    pub query: Vec<(String, String)>,
    /// Body field name and value, each name once.
    pub body: Vec<(String, FieldValue)>,
    /// Multipart file parts: field name and file name.
    pub uploads: Vec<(String, String)>,
    /// Encode the body as multipart/form-data rather than as JSON.
    pub form: bool,
}

impl RequestSpec {
    /// The body fields as JSON object members: a text field becomes the JSON
    /// string of its text, a JSON field stays the value it is.
    pub fn json_fields(&self) -> (r: Vec<(String, serde_json::Value)>)
        ensures
            members_view(r@) == json_members(self.body@),
    {
        let mut fields: Vec<(String, serde_json::Value)> = Vec::new();
        let mut i: usize = 0;
        while i < self.body.len()
            invariant
                i <= self.body.len(),
                members_view(fields@) == json_members(self.body@.subrange(0, i as int)),
            decreases self.body.len() - i,
        {
            let value = match &self.body[i].1 {
                FieldValue::Text(t) => json_string(t.clone()),
                FieldValue::Json(j) => j.clone(),
            };
            assert(value == json_value(self.body@[i as int].1));
            let ghost prev = fields@;
            let key = self.body[i].0.clone();
            let ghost entry = (key@, value);
            fields.push((key, value));
            assert(members_view(fields@) =~= members_view(prev).push(entry));
            assert(json_members(self.body@.subrange(0, i + 1int)) =~= json_members(
                self.body@.subrange(0, i as int),
            ).push(entry));
            i += 1;
        }
        assert(self.body@.subrange(0, self.body.len() as int) =~= self.body@);
        fields
    }

    /// The body as one JSON object, as it is sent outside form mode.
    pub fn json_body(&self) -> (r: serde_json::Value)
        ensures
            r == json_object_of(json_members(self.body@)),
    {
        json_object(self.json_fields())
    }

    /// The URL that the request goes to: `url?k1=v1&k2=v2`, or the bare URL
    /// where there is no query parameter. Keys and values stand as they are,
    /// without percent-encoding; a transport that encodes the query takes the
    /// pairs from `query` instead.
    pub fn target(&self) -> (r: String)
        ensures
            r@ == target_of(self.url@, pairs_view(self.query@)),
    {
        let ghost q = pairs_view(self.query@);
        let mut out = chars_of(self.url.as_str());
        if self.query.len() == 0 {
            return string_of(&out);
        }
        out.push('?');
        let mut i: usize = 0;
        while i < self.query.len()
            invariant
                i <= self.query.len(),
                q == pairs_view(self.query@),
                out@ == self.url@ + seq!['?'] + query_text(q.subrange(0, i as int)),
            decreases self.query.len() - i,
        {
            let ghost before = out@;
            assert(q.subrange(0, i + 1int).drop_last() =~= q.subrange(0, i as int));
            if i > 0 {
                out.push('&');
            }
            let mut key = chars_of(self.query[i].0.as_str());
            let mut value = chars_of(self.query[i].1.as_str());
            out.append(&mut key);
            out.push('=');
            out.append(&mut value);
            proof {
                if i == 0 {
                    assert(out@ =~= before + pair_text(q[0]));
                } else {
                    assert(out@ =~= before + seq!['&'] + pair_text(q[i as int]));
                }
            }
            i += 1;
        }
        assert(q.subrange(0, self.query.len() as int) =~= q);
        string_of(&out)
    }
}

/// Where `m` holds `k`, the index of its first occurrence.
pub fn key_position<V>(m: &Vec<(String, V)>, k: &String) -> (r: Option<usize>)
    ensures
        match r {
            Some(i) => key_index(string_keys(m@), k@) == Some(i as int),
            None => key_index(string_keys(m@), k@) is None,
        },
        r matches Some(i) ==> i < m.len(),
{
    proof {
        lemma_key_index_from(string_keys(m@), k@, 0);
    }
    let ghost keys = string_keys(m@);
    let mut i: usize = 0;
    while i < m.len()
        invariant
            i <= m.len(),
            keys == string_keys(m@),
            key_index_from(keys, k@, 0) == key_index_from(keys, k@, i as int),
        decreases m.len() - i,
    {
        if m[i].0 == *k {
            return Some(i);
        }
        i += 1;
    }
    None
}

/// Sets key `k` to `v` in the ordered mapping `m`.
pub fn upsert_entry<V>(m: &mut Vec<(String, V)>, k: String, v: V)
    ensures
        final(m)@ == upsert_strings(old(m)@, k, v),
{
    match key_position(m, &k) {
        Some(i) => {
            m[i] = (k, v);
        },
        None => {
            m.push((k, v));
        },
    }
}

proof fn lemma_upsert_pairs(m: Seq<(String, String)>, k: String, v: String)
    ensures
        pairs_view(upsert_strings(m, k, v)) == upsert(pairs_view(m), k@, v@),
{
    assert(string_keys(m) =~= keys_of(pairs_view(m)));
    lemma_key_index_from(string_keys(m), k@, 0);
    match key_index(string_keys(m), k@) {
        Some(i) => {
            assert(pairs_view(upsert_strings(m, k, v)) =~= upsert(pairs_view(m), k@, v@));
        },
        None => {
            assert(pairs_view(upsert_strings(m, k, v)) =~= upsert(pairs_view(m), k@, v@));
        },
    }
}

proof fn lemma_upsert_body(
    e: Seq<(String, FieldValue)>,
    s: Seq<(Seq<char>, FieldSpec)>,
    k: String,
    v: FieldValue,
    fs: FieldSpec,
)
    requires
        body_matches(e, s),
        field_matches(v, fs),
    ensures
        body_matches(upsert_strings(e, k, v), upsert(s, k@, fs)),
{
    assert(string_keys(e) =~= keys_of(s)) by {
        assert forall|j: int| 0 <= j < e.len() implies string_keys(e)[j] == keys_of(s)[j] by {
            assert(e[j].0@ == s[j].0);
        }
    }
    lemma_key_index_from(string_keys(e), k@, 0);
    let e2 = upsert_strings(e, k, v);
    let s2 = upsert(s, k@, fs);
    assert forall|j: int| 0 <= j < e2.len() implies (#[trigger] e2[j]).0@ == s2[j].0
        && field_matches(e2[j].1, s2[j].1) by {
        if j < e.len() {
            assert(e[j].0@ == s[j].0);
        }
    }
}

/// Where the file table holds `path`, its contents.
pub fn read_from_table(table: &Vec<(String, String)>, path: &String) -> (r: Option<String>)
    ensures
        match lookup(pairs_view(table@), path@) {
            Some(c) => r matches Some(t) && t@ == c,
            None => r is None,
        },
{
    proof {
        assert(string_keys(table@) =~= keys_of(pairs_view(table@)));
    }
    match key_position(table, path) {
        Some(i) => Some(table[i].1.clone()),
        None => None,
    }
}

/// Folds the parameters, in order, into one request to `url`. Files named by
/// parameters are looked up in `table`, a list of path and contents read
/// beforehand. The first parameter that cannot go into the request gives the
/// error.
pub fn build_request(
    cmd: Option<Method>,
    url: &str,
    params: &Vec<Parameter>,
    table: &Vec<(String, String)>,
    form: bool,
) -> (r: Result<RequestSpec, HurlError>)
    ensures
        r is Ok <==> forall|i: int| 0 <= i < params.len() ==> !fails(#[trigger] params[i], pairs_view(table@), form),
        r matches Err(e) ==> exists|i: int|
            0 <= i < params.len() && build_error_for(e, #[trigger] params[i], pairs_view(table@), form)
                && forall|j: int| 0 <= j < i ==> !fails(#[trigger] params[j], pairs_view(table@), form),
        r matches Ok(q) ==> {
            &&& q.method == method_for(cmd, params@)
            &&& q.url@ == url@
            &&& pairs_view(q.headers@) == headers_of(params@)
            &&& pairs_view(q.query@) == queries_of(params@)
            &&& pairs_view(q.uploads@) == uploads_of(params@)
            &&& body_matches(q.body@, body_of(params@, pairs_view(table@)))
            &&& q.form == form
        },
{
    let ghost t = pairs_view(table@);
    let mut headers: Vec<(String, String)> = Vec::new();
    let mut query: Vec<(String, String)> = Vec::new();
    let mut body: Vec<(String, FieldValue)> = Vec::new();
    let mut uploads: Vec<(String, String)> = Vec::new();
    let mut data = false;
    let mut i: usize = 0;
    while i < params.len()
        invariant
            i <= params.len(),
            t == pairs_view(table@),
            forall|j: int| 0 <= j < i ==> !fails(#[trigger] params[j], t, form),
            pairs_view(headers@) == headers_of(params@.subrange(0, i as int)),
            pairs_view(query@) == queries_of(params@.subrange(0, i as int)),
            pairs_view(uploads@) == uploads_of(params@.subrange(0, i as int)),
            body_matches(body@, body_of(params@.subrange(0, i as int), t)),
            data == has_data(params@.subrange(0, i as int)),
        decreases params.len() - i,
    {
        let ghost before = params@.subrange(0, i as int);
        let ghost now = params@.subrange(0, i + 1int);
        assert(now.drop_last() =~= before);
        assert(now.last() == params[i as int]);
        let ghost old_headers = headers@;
        let ghost old_body = body@;
        if params[i].is_data() {
            data = true;
        }
        match &params[i] {
            Parameter::Header { key, value } => {
                upsert_entry(&mut headers, key.clone(), value.clone());
                proof {
                    lemma_upsert_pairs(old_headers, *key, *value);
                }
            },
            Parameter::Query { key, value } => {
                query.push((key.clone(), value.clone()));
                assert(pairs_view(query@) =~= queries_of(now));
            },
            Parameter::FileUpload { key, filename } => {
                if !form {
                    return Err(HurlError::FileUploadRequiresForm { key: key.clone() });
                }
                uploads.push((key.clone(), filename.clone()));
                assert(pairs_view(uploads@) =~= uploads_of(now));
            },
            Parameter::DataField { key, value } => {
                let v = FieldValue::Text(value.clone());
                let ghost gv = v;
                upsert_entry(&mut body, key.clone(), v);
                proof {
                    lemma_upsert_body(old_body, body_of(before, t), *key, gv, FieldSpec::Text(value@));
                }
            },
            Parameter::DataFieldFromFile { key, filename } => {
                match read_from_table(table, filename) {
                    Some(text) => {
                        let ghost c = text@;
                        let v = FieldValue::Text(text);
                        let ghost gv = v;
                upsert_entry(&mut body, key.clone(), v);
                        proof {
                            lemma_upsert_body(old_body, body_of(before, t), *key, gv, FieldSpec::Text(c));
                        }
                    },
                    None => {
                        return Err(HurlError::FileReadError { path: filename.clone() });
                    },
                }
            },
            Parameter::RawJsonField { key, json } => {
                let v = FieldValue::Json(json.clone());
                let ghost gv = v;
                upsert_entry(&mut body, key.clone(), v);
                proof {
                    lemma_upsert_body(old_body, body_of(before, t), *key, gv, FieldSpec::Json(*json));
                }
            },
            Parameter::RawJsonFieldFromFile { key, filename } => {
                match read_from_table(table, filename) {
                    Some(text) => {
                        match parse_json(text.as_str()) {
                            Ok(json) => {
                                let v = FieldValue::Json(json);
                                let ghost gv = v;
                upsert_entry(&mut body, key.clone(), v);
                                proof {
                                    lemma_upsert_body(old_body, body_of(before, t), *key, gv, FieldSpec::JsonText(text@));
                                }
                            },
                            Err(e) => {
                                return Err(
                                    HurlError::InvalidJson { key: key.clone(), line: e.line(), column: e.column() },
                                );
                            },
                        }
                    },
                    None => {
                        return Err(HurlError::FileReadError { path: filename.clone() });
                    },
                }
            },
        }
        proof {
            if data {
                if !has_data(before) {
                    assert(now[i as int].is_data_spec());
                }
            } else {
                assert forall|j: int| 0 <= j < now.len() implies !(#[trigger] now[j]).is_data_spec() by {
                    if j < i {
                        assert(now[j] == before[j]);
                    }
                }
            }
        }
        i += 1;
    }
    assert(params@.subrange(0, params.len() as int) =~= params@);
    let method = match cmd {
        Some(m) => m,
        None => if data {
            Method::Post
        } else {
            Method::Get
        },
    };
    Ok(RequestSpec { method, url: url.to_owned(), headers, query, body, uploads, form })
}

/// `://`, which separates a URL's scheme from the rest.
pub open spec fn scheme_mark() -> Seq<char> {
    seq![':', '/', '/']
}

/// The URL with a scheme: as it is where it has one, else with `https://`
/// in front when `secure`, `http://` when not.
pub open spec fn with_scheme_spec(url: Seq<char>, secure: bool) -> Seq<char> {
    if find(url, scheme_mark()) is Some {
        url
    } else if secure {
        seq!['h', 't', 't', 'p', 's', ':', '/', '/'] + url
    } else {
        seq!['h', 't', 't', 'p', ':', '/', '/'] + url
    }
}

/// Gives a URL without a scheme the default one.
pub fn with_scheme(url: &str, secure: bool) -> (r: String)
    ensures
        r@ == with_scheme_spec(url@, secure),
{
    let u = chars_of(url);
    let mark = vec![':', '/', '/'];
    assert(mark@ == scheme_mark());
    if find_exec(&u, &mark).is_some() {
        return url.to_owned();
    }
    let mut out = if secure {
        vec!['h', 't', 't', 'p', 's', ':', '/', '/']
    } else {
        vec!['h', 't', 't', 'p', ':', '/', '/']
    };
    push_str(&mut out, url);
    string_of(&out)
}

/// Basic credentials `user:password` split at the first `:`; without one,
/// the whole text is the user and there is no password.
pub open spec fn credentials_spec(s: Seq<char>) -> (Seq<char>, Option<Seq<char>>) {
    match find(s, seq![':']) {
        Some(i) => (s.subrange(0, i), Some(s.subrange(i + 1, s.len() as int))),
        None => (s, None),
    }
}

/// Splits basic credentials into user and password.
pub fn split_credentials(auth: &str) -> (r: (String, Option<String>))
    ensures
        r.0@ == credentials_spec(auth@).0,
        match credentials_spec(auth@).1 {
            Some(p) => r.1 matches Some(q) && q@ == p,
            None => r.1 is None,
        },
{
    let s = chars_of(auth);
    let colon = vec![':'];
    assert(colon@ == seq![':']);
    match find_exec(&s, &colon) {
        Some(i) => {
            proof {
                crate::text::lemma_find_from_bounds(s@, colon@, 0);
                assert(crate::text::occurs_at(s@, colon@, i as int));
            }
            assert(i + 1 <= s.len());
            let user = sub_chars(&s, 0, i);
            let password = sub_chars(&s, i + 1, s.len());
            (string_of(&user), Some(string_of(&password)))
        },
        None => (auth.to_owned(), None),
    }
}

} // verus!
