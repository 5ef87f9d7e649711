//! The parameter grammar: one `key<separator>value` argument becomes one
//! typed parameter.
use vstd::prelude::*;

use crate::json::{json_of, json_valid, parse_json};
use crate::text::{
    chars_of, find, find_exec, lemma_find_from_absent, lemma_find_from_bounds, lemma_find_from_first,
    lemma_find_from_none, occurs_at, string_of, sub_chars,
};

verus! {

/// The kinds of parameter, listed in the order in which their
/// separators are tried.
#[derive(Clone, Copy, Debug, PartialEq, Eq, Structural)]
pub enum Kind {
    RawJsonFieldFromFile,
    RawJsonField,
    DataFieldFromFile,
    Query,
    FileUpload,
    Header,
    DataField,
}

/// The number of kinds, which is also the number of separators.
pub const KIND_COUNT: usize = 7;

/// The separator that marks each kind.
pub open spec fn separator(k: Kind) -> Seq<char> {
    match k {
        Kind::RawJsonFieldFromFile => seq![':', '=', '@'],
        Kind::RawJsonField => seq![':', '='],
        Kind::DataFieldFromFile => seq!['=', '@'],
        Kind::Query => seq!['=', '='],
        Kind::FileUpload => seq!['@'],
        Kind::Header => seq![':'],
        Kind::DataField => seq!['='],
    }
}

/// The kind whose separator is tried `n`-th, longest separators first.
pub open spec fn precedence(n: int) -> Kind {
    if n <= 0 {
        Kind::RawJsonFieldFromFile
    } else if n == 1 {
        Kind::RawJsonField
    } else if n == 2 {
        Kind::DataFieldFromFile
    } else if n == 3 {
        Kind::Query
    } else if n == 4 {
        Kind::FileUpload
    } else if n == 5 {
        Kind::Header
    } else {
        Kind::DataField
    }
}

/// The first separator, in order of precedence from the `n`-th on, that
/// occurs in `s`, with the index of its first occurrence.
pub open spec fn first_separator_from(s: Seq<char>, n: int) -> Option<(Kind, int)>
    decreases KIND_COUNT - n,
{
    if n < 0 || n >= KIND_COUNT {
        None
    } else {
        match find(s, separator(precedence(n))) {
            Some(i) => Some((precedence(n), i)),
            None => first_separator_from(s, n + 1),
        }
    }
}

/// The place of a kind in the order in which separators are tried.
pub open spec fn rank(k: Kind) -> int {
    match k {
        Kind::RawJsonFieldFromFile => 0,
        Kind::RawJsonField => 1,
        Kind::DataFieldFromFile => 2,
        Kind::Query => 3,
        Kind::FileUpload => 4,
        Kind::Header => 5,
        Kind::DataField => 6,
    }
}

/// The separator that decides the kind of argument `s`, and where it stands.
pub open spec fn first_separator(s: Seq<char>) -> Option<(Kind, int)> {
    first_separator_from(s, 0)
}

/// Why an argument is not a parameter.
#[derive(Clone, Copy, Debug, PartialEq, Eq, Structural)]
pub enum Malformed {
    /// None of the separators occurs in it.
    NoSeparator,
    /// The text before the separator is empty.
    EmptyKey,
}

/// An argument split by the grammar: its kind, the key before the separator
/// and the raw value after it.
pub open spec fn split_spec(s: Seq<char>) -> Result<(Kind, Seq<char>, Seq<char>), Malformed> {
    match first_separator(s) {
        None => Err(Malformed::NoSeparator),
        Some((k, i)) => if i == 0 {
            Err(Malformed::EmptyKey)
        } else {
            Ok((k, s.subrange(0, i), s.subrange(i + separator(k).len(), s.len() as int)))
        },
    }
}

/// The errors of parsing parameters and building a request.
#[derive(Clone, Debug, PartialEq)]
pub enum HurlError {
    /// The argument has no separator, or an empty key.
    MalformedParameter { arg: String, reason: Malformed },
    /// A file named by a parameter could not be read.
    FileReadError { path: String },
    /// The value of a raw JSON parameter is not JSON.
    InvalidJson { key: String, line: usize, column: usize },
    /// A file upload was asked for outside form mode.
    FileUploadRequiresForm { key: String },
}

/// An argument split by the grammar, before its value is interpreted.
#[derive(Clone, Debug, PartialEq)]
pub struct Token {
    pub kind: Kind,
    pub key: String,
    pub value: String,
}

/// The separator of a kind, as characters.
pub fn separator_chars(k: Kind) -> (r: Vec<char>)
    ensures
        r@ == separator(k),
{
    let r = match k {
        Kind::RawJsonFieldFromFile => vec![':', '=', '@'],
        Kind::RawJsonField => vec![':', '='],
        Kind::DataFieldFromFile => vec!['=', '@'],
        Kind::Query => vec!['=', '='],
        Kind::FileUpload => vec!['@'],
        Kind::Header => vec![':'],
        Kind::DataField => vec!['='],
    };
    assert(r@ =~= separator(k));
    r
}

/// The kind whose separator is tried `n`-th.
pub fn precedence_at(n: usize) -> (r: Kind)
    ensures
        r == precedence(n as int),
{
    if n == 0 {
        Kind::RawJsonFieldFromFile
    } else if n == 1 {
        Kind::RawJsonField
    } else if n == 2 {
        Kind::DataFieldFromFile
    } else if n == 3 {
        Kind::Query
    } else if n == 4 {
        Kind::FileUpload
    } else if n == 5 {
        Kind::Header
    } else {
        Kind::DataField
    }
}

/// Splits one argument into kind, key and raw value, trying the separators
/// longest first and taking the first occurrence of the first one found.
pub fn split_param(arg: &str) -> (r: Result<Token, HurlError>)
    ensures
        match split_spec(arg@) {
            Ok((k, key, value)) => r matches Ok(t) && t.kind == k && t.key@ == key && t.value@
                == value,
            Err(m) => r matches Err(HurlError::MalformedParameter { arg: a, reason }) && a@
                == arg@ && reason == m,
        },
{
    let s = chars_of(arg);
    let mut n: usize = 0;
    while n < KIND_COUNT
        invariant
            s@ == arg@,
            n <= KIND_COUNT,
            first_separator(s@) == first_separator_from(s@, n as int),
        decreases KIND_COUNT - n,
    {
        let k = precedence_at(n);
        let sep = separator_chars(k);
        match find_exec(&s, &sep) {
            Some(i) => {
                if i == 0 {
                    return Err(HurlError::MalformedParameter { arg: arg.to_owned(), reason: Malformed::EmptyKey });
                }
                assert(i + sep.len() <= s.len()) by {
                    lemma_find_from_bounds(s@, sep@, 0);
                }
                let key = sub_chars(&s, 0, i);
                let value = sub_chars(&s, i + sep.len(), s.len());
                return Ok(Token { kind: k, key: string_of(&key), value: string_of(&value) });
            },
            None => {},
        }
        n += 1;
    }
    Err(HurlError::MalformedParameter { arg: arg.to_owned(), reason: Malformed::NoSeparator })
}

/// One typed parameter of a request.
#[derive(Clone, Debug, PartialEq)]
pub enum Parameter {
    /// `key:value`, a request header.
    Header { key: String, value: String },
    /// `key@filename`, a file uploaded as a multipart part.
    FileUpload { key: String, filename: String },
    /// `key==value`, a query parameter.
    Query { key: String, value: String },
    /// `key=value`, a body field.
    DataField { key: String, value: String },
    /// `key=@filename`, a body field holding a file's text.
    DataFieldFromFile { key: String, filename: String },
    /// `key:=json`, a body field holding a JSON value.
    RawJsonField { key: String, json: serde_json::Value },
    /// `key:=@filename`, a body field holding the JSON value in a file.
    RawJsonFieldFromFile { key: String, filename: String },
}

impl Parameter {
    /// The kind of the parameter.
    pub open spec fn kind_spec(&self) -> Kind {
        match self {
            Parameter::Header { .. } => Kind::Header,
            Parameter::FileUpload { .. } => Kind::FileUpload,
            Parameter::Query { .. } => Kind::Query,
            Parameter::DataField { .. } => Kind::DataField,
            Parameter::DataFieldFromFile { .. } => Kind::DataFieldFromFile,
            Parameter::RawJsonField { .. } => Kind::RawJsonField,
            Parameter::RawJsonFieldFromFile { .. } => Kind::RawJsonFieldFromFile,
        }
    }

    /// The key of the parameter.
    pub open spec fn key_spec(&self) -> Seq<char> {
        match self {
            Parameter::Header { key, .. } => key@,
            Parameter::FileUpload { key, .. } => key@,
            Parameter::Query { key, .. } => key@,
            Parameter::DataField { key, .. } => key@,
            Parameter::DataFieldFromFile { key, .. } => key@,
            Parameter::RawJsonField { key, .. } => key@,
            Parameter::RawJsonFieldFromFile { key, .. } => key@,
        }
    }

    /// The text after the separator: a value or a file name. A raw JSON
    /// field keeps its parsed value instead, and has none.
    pub open spec fn text_spec(&self) -> Seq<char> {
        match self {
            Parameter::Header { value, .. } => value@,
            Parameter::FileUpload { filename, .. } => filename@,
            Parameter::Query { value, .. } => value@,
            Parameter::DataField { value, .. } => value@,
            Parameter::DataFieldFromFile { filename, .. } => filename@,
            Parameter::RawJsonField { .. } => Seq::empty(),
            Parameter::RawJsonFieldFromFile { filename, .. } => filename@,
        }
    }

    /// Whether the parameter goes into the request body.
    pub open spec fn is_data_spec(&self) -> bool {
        !(self is Header || self is Query)
    }

    /// The kind of the parameter.
    pub fn kind(&self) -> (r: Kind)
        ensures
            r == self.kind_spec(),
    {
        match self {
            Parameter::Header { .. } => Kind::Header,
            Parameter::FileUpload { .. } => Kind::FileUpload,
            Parameter::Query { .. } => Kind::Query,
            Parameter::DataField { .. } => Kind::DataField,
            Parameter::DataFieldFromFile { .. } => Kind::DataFieldFromFile,
            Parameter::RawJsonField { .. } => Kind::RawJsonField,
            Parameter::RawJsonFieldFromFile { .. } => Kind::RawJsonFieldFromFile,
        }
    }

    /// The key of the parameter.
    pub fn key(&self) -> (r: &String)
        ensures
            r@ == self.key_spec(),
    {
        match self {
            Parameter::Header { key, .. } => key,
            Parameter::FileUpload { key, .. } => key,
            Parameter::Query { key, .. } => key,
            Parameter::DataField { key, .. } => key,
            Parameter::DataFieldFromFile { key, .. } => key,
            Parameter::RawJsonField { key, .. } => key,
            Parameter::RawJsonFieldFromFile { key, .. } => key,
        }
    }

    /// Whether the parameter goes into the request body.
    pub fn is_data(&self) -> (r: bool)
        ensures
            r == self.is_data_spec(),
    {
        match self {
            Parameter::Header { .. } | Parameter::Query { .. } => false,
            _ => true,
        }
    }

    /// The file whose contents the parameter stands for, read before the
    /// request is built: for the two kinds that read a file into the body.
    pub fn file_to_read(&self) -> (r: Option<&String>)
        ensures
            r matches Some(f) ==> f@ == self.text_spec(),
            r is Some <==> (self is DataFieldFromFile || self is RawJsonFieldFromFile),
    {
        match self {
            Parameter::DataFieldFromFile { filename, .. } => Some(filename),
            Parameter::RawJsonFieldFromFile { filename, .. } => Some(filename),
            _ => None,
        }
    }

    /// Builds the typed parameter from a split argument; a raw JSON value is
    /// parsed here.
    pub fn from_token(t: Token) -> (r: Result<Parameter, HurlError>)
        ensures
            r is Ok <==> (t.kind == Kind::RawJsonField ==> json_valid(t.value@)),
            r matches Ok(p) ==> p.kind_spec() == t.kind && p.key_spec() == t.key@ && (t.kind
                != Kind::RawJsonField ==> p.text_spec() == t.value@) && (t.kind == Kind::RawJsonField
                ==> (p matches Parameter::RawJsonField { json, .. } && json == json_of(t.value@))),
            r matches Err(e) ==> (e matches HurlError::InvalidJson { key, .. } && key@ == t.key@),
    {
        let Token { kind, key, value } = t;
        match kind {
            Kind::Header => Ok(Parameter::Header { key, value }),
            Kind::FileUpload => Ok(Parameter::FileUpload { key, filename: value }),
            Kind::Query => Ok(Parameter::Query { key, value }),
            Kind::DataField => Ok(Parameter::DataField { key, value }),
            Kind::DataFieldFromFile => Ok(Parameter::DataFieldFromFile { key, filename: value }),
            Kind::RawJsonFieldFromFile => Ok(Parameter::RawJsonFieldFromFile { key, filename: value }),
            Kind::RawJsonField => match parse_json(value.as_str()) {
                Ok(json) => Ok(Parameter::RawJsonField { key, json }),
                Err(e) => Err(HurlError::InvalidJson { key, line: e.line(), column: e.column() }),
            },
        }
    }
}

/// Argument `s` is a parameter: it splits, and a raw JSON value is JSON.
pub open spec fn param_ok(s: Seq<char>) -> bool {
    match split_spec(s) {
        Ok((k, _key, value)) => k == Kind::RawJsonField ==> json_valid(value),
        Err(_) => false,
    }
}

/// `p` is the parameter that argument `s` stands for; a raw JSON field holds
/// the value that serde_json reads from the text after `:=`.
pub open spec fn describes(p: Parameter, s: Seq<char>) -> bool {
    match split_spec(s) {
        Ok((k, key, value)) => p.kind_spec() == k && p.key_spec() == key && (k
            != Kind::RawJsonField ==> p.text_spec() == value) && (k == Kind::RawJsonField ==> (
        p matches Parameter::RawJsonField { json, .. } && json == json_of(value))),
        Err(_) => false,
    }
}

/// `e` is the error that argument `s` gives.
pub open spec fn error_for(e: HurlError, s: Seq<char>) -> bool {
    match split_spec(s) {
        Err(m) => e matches HurlError::MalformedParameter { arg, reason } && arg@ == s && reason
            == m,
        Ok((k, key, value)) => k == Kind::RawJsonField && !json_valid(value) && (
        e matches HurlError::InvalidJson { key: ek, .. } && ek@ == key),
    }
}

/// Parses one argument into a parameter.
pub fn parse_param(arg: &str) -> (r: Result<Parameter, HurlError>)
    ensures
        r is Ok <==> param_ok(arg@),
        r matches Ok(p) ==> describes(p, arg@),
        r matches Err(e) ==> error_for(e, arg@),
{
    let t = split_param(arg)?;
    Parameter::from_token(t)
}

/// Parses every argument, in order; the first argument that is not a
/// parameter gives the error.
pub fn parse_parameters(args: &Vec<String>) -> (r: Result<Vec<Parameter>, HurlError>)
    ensures
        r is Ok <==> forall|i: int| 0 <= i < args.len() ==> param_ok(#[trigger] args[i]@),
        r matches Ok(ps) ==> ps.len() == args.len() && forall|i: int|
            0 <= i < args.len() ==> describes(#[trigger] ps[i], args[i]@),
        r matches Err(e) ==> exists|i: int|
            0 <= i < args.len() && !param_ok(#[trigger] args[i]@) && error_for(e, args[i]@) && forall|j: int|
                0 <= j < i ==> param_ok(#[trigger] args[j]@),
{
    let mut ps: Vec<Parameter> = Vec::new();
    let mut i: usize = 0;
    while i < args.len()
        invariant
            i <= args.len(),
            ps.len() == i,
            forall|j: int| 0 <= j < i ==> param_ok(#[trigger] args[j]@),
            forall|j: int| 0 <= j < i ==> describes(#[trigger] ps[j], args[j]@),
        decreases args.len() - i,
    {
        match parse_param(args[i].as_str()) {
            Ok(p) => ps.push(p),
            Err(e) => return Err(e),
        }
        i += 1;
    }
    Ok(ps)
}

/// An argument `k:v` is the header `k` with value `v`, where the key is not
/// empty and holds no separator, and no separator that takes precedence over
/// `:` occurs in the argument (`a:b==c`, for one, is a query whose key is `a:b`).
pub proof fn lemma_header_parses(k: Seq<char>, v: Seq<char>)
    requires
        k.len() > 0,
        forall|kind: Kind| find(k, #[trigger] separator(kind)) is None,
        forall|n: int| 0 <= n < 5 ==> find(k + seq![':'] + v, #[trigger] separator(precedence(n))) is None,
    ensures
        param_ok(k + seq![':'] + v),
        split_spec(k + seq![':'] + v) == Ok::<_, Malformed>((Kind::Header, k, v)),
        forall|p: Parameter| describes(p, k + seq![':'] + v) ==> (p matches Parameter::Header { key, value } && key@ == k && value@ == v),
{
    let s = k + seq![':'] + v;
    let colon = separator(Kind::Header);
    assert(find(k, colon) is None);
    lemma_find_from_none(k, colon, 0);
    assert forall|j: int| 0 <= j < k.len() implies !#[trigger] occurs_at(s, colon, j) by {
        assert(!occurs_at(k, colon, j));
        assert(s.subrange(j, j + 1) =~= k.subrange(j, j + 1));
    }
    assert(s.subrange(k.len() as int, k.len() + 1int) =~= colon);
    lemma_find_from_first(s, colon, 0, k.len() as int);
    assert(find(s, separator(precedence(0))) is None);
    assert(find(s, separator(precedence(1))) is None);
    assert(find(s, separator(precedence(2))) is None);
    assert(find(s, separator(precedence(3))) is None);
    assert(find(s, separator(precedence(4))) is None);
    reveal_with_fuel(first_separator_from, 7);
    assert(first_separator(s) == Some((Kind::Header, k.len() as int)));
    assert(s.subrange(0, k.len() as int) =~= k);
    assert(s.subrange(k.len() + 1int, s.len() as int) =~= v);
}

proof fn lemma_first_separator_from(s: Seq<char>, m: int)
    requires
        0 <= m,
    ensures
        first_separator_from(s, m) matches Some((k, i)) ==> m <= rank(k) < KIND_COUNT
            && precedence(rank(k)) == k && find(s, separator(k)) == Some(i) && forall|n: int|
            m <= n < rank(k) ==> find(s, #[trigger] separator(precedence(n))) is None,
    decreases KIND_COUNT - m,
{
    if m < KIND_COUNT && find(s, separator(precedence(m))) is None {
        lemma_first_separator_from(s, m + 1);
    }
}

/// The key that the grammar splits off is not empty, and holds neither the
/// separator that split it nor any separator tried before that one. (Later
/// separators may stay in it: `a=b:c` is the header `a=b`.)
pub proof fn lemma_key_free_of_earlier_separators(s: Seq<char>)
    ensures
        split_spec(s) matches Ok((k, key, _value)) ==> key.len() > 0 && find(key, separator(k)) is None
            && forall|n: int| 0 <= n < rank(k) ==> find(key, #[trigger] separator(precedence(n))) is None,
{
    lemma_first_separator_from(s, 0);
    if let Some((k, i)) = first_separator(s) {
        if i != 0 {
            let sep = separator(k);
            lemma_find_from_bounds(s, sep, 0);
            let key = s.subrange(0, i);
            assert forall|j: int| 0 <= j implies !#[trigger] occurs_at(key, sep, j) by {
                if occurs_at(key, sep, j) {
                    assert(key.subrange(j, j + sep.len()) =~= s.subrange(j, j + sep.len()));
                    assert(occurs_at(s, sep, j));
                }
            }
            lemma_find_from_absent(key, sep, 0);
            assert forall|n: int| 0 <= n < rank(k) implies find(key, #[trigger] separator(precedence(n))) is None by {
                let other = separator(precedence(n));
                lemma_find_from_none(s, other, 0);
                assert forall|j: int| 0 <= j implies !#[trigger] occurs_at(key, other, j) by {
                    if occurs_at(key, other, j) {
                        assert(key.subrange(j, j + other.len()) =~= s.subrange(j, j + other.len()));
                        assert(occurs_at(s, other, j));
                    }
                }
                lemma_find_from_absent(key, other, 0);
            }
        }
    }
}

} // verus!
