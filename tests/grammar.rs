use hurl::{parse_param, parse_parameters, split_param, HurlError, Kind, Malformed, Parameter};

fn header(key: &str, value: &str) -> Parameter {
    Parameter::Header { key: key.to_string(), value: value.to_string() }
}

#[test]
fn api_token_header() {
    assert_eq!(parse_param("X-API-TOKEN:abc123").unwrap(), header("X-API-TOKEN", "abc123"));
}

#[test]
fn plain_key_value_is_header() {
    assert_eq!(parse_param("Accept:text/html").unwrap(), header("Accept", "text/html"));
    assert_eq!(parse_param("k:").unwrap(), header("k", ""));
    assert_eq!(parse_param("k:a:b").unwrap(), header("k", "a:b"));
}

#[test]
fn raw_json_separator_takes_precedence() {
    let t = split_param("foo:=bar").unwrap();
    assert_eq!(t.kind, Kind::RawJsonField);
    assert_eq!(t.key, "foo");
    assert_eq!(t.value, "bar");
    match parse_param("foo:=bar") {
        Err(HurlError::InvalidJson { key, line, column }) => {
            assert_eq!(key, "foo");
            assert_eq!(line, 1);
            assert!(column >= 1);
        }
        other => panic!("unexpected {:?}", other),
    }
}

#[test]
fn raw_json_value_is_parsed() {
    match parse_param("foo:=[1,2,3]").unwrap() {
        Parameter::RawJsonField { key, json } => {
            assert_eq!(key, "foo");
            assert_eq!(serde_json::to_string(&json).unwrap(), "[1,2,3]");
        }
        other => panic!("unexpected {:?}", other),
    }
}

#[test]
fn query_separator() {
    assert_eq!(
        parse_param("foo==bar").unwrap(),
        Parameter::Query { key: "foo".to_string(), value: "bar".to_string() }
    );
}

#[test]
fn data_field_separator() {
    assert_eq!(
        parse_param("foo=bar").unwrap(),
        Parameter::DataField { key: "foo".to_string(), value: "bar".to_string() }
    );
}

#[test]
fn file_separators() {
    assert_eq!(
        parse_param("key@photo.png").unwrap(),
        Parameter::FileUpload { key: "key".to_string(), filename: "photo.png".to_string() }
    );
    assert_eq!(
        parse_param("foo=@bar.txt").unwrap(),
        Parameter::DataFieldFromFile { key: "foo".to_string(), filename: "bar.txt".to_string() }
    );
    assert_eq!(
        parse_param("foo:=@bar.json").unwrap(),
        Parameter::RawJsonFieldFromFile { key: "foo".to_string(), filename: "bar.json".to_string() }
    );
}

#[test]
fn first_occurrence_of_first_separator_found() {
    // `==` outranks `:` even when `:` comes first.
    assert_eq!(
        parse_param("a:b==c").unwrap(),
        Parameter::Query { key: "a:b".to_string(), value: "c".to_string() }
    );
    // The first occurrence splits; later ones stay in the value.
    assert_eq!(
        parse_param("a=b=c").unwrap(),
        Parameter::DataField { key: "a".to_string(), value: "b=c".to_string() }
    );
}

#[test]
fn no_separator_is_malformed() {
    assert_eq!(
        parse_param("foobar"),
        Err(HurlError::MalformedParameter {
            arg: "foobar".to_string(),
            reason: Malformed::NoSeparator
        })
    );
    assert_eq!(
        parse_param(""),
        Err(HurlError::MalformedParameter { arg: String::new(), reason: Malformed::NoSeparator })
    );
}

#[test]
fn empty_key_is_malformed() {
    assert_eq!(
        parse_param(":value"),
        Err(HurlError::MalformedParameter {
            arg: ":value".to_string(),
            reason: Malformed::EmptyKey
        })
    );
}

#[test]
fn parameters_in_order_first_error_wins() {
    let args = vec!["a:1".to_string(), "b==2".to_string(), "c=3".to_string()];
    let ps = parse_parameters(&args).unwrap();
    assert_eq!(ps.len(), 3);
    assert_eq!(ps[0].kind(), Kind::Header);
    assert_eq!(ps[1].kind(), Kind::Query);
    assert_eq!(ps[2].kind(), Kind::DataField);
    assert!(ps[2].is_data());
    assert!(!ps[0].is_data());

    let bad = vec!["a:1".to_string(), "nope".to_string(), ":x".to_string()];
    assert_eq!(
        parse_parameters(&bad),
        Err(HurlError::MalformedParameter { arg: "nope".to_string(), reason: Malformed::NoSeparator })
    );
}

#[test]
fn non_ascii_keys_and_values() {
    assert_eq!(parse_param("clé:valeur été").unwrap(), header("clé", "valeur été"));
}
