use hurl::{build_request, parse_param, FieldValue, HurlError, Method, Parameter, RequestSpec};

fn params(args: &[&str]) -> Vec<Parameter> {
    args.iter().map(|a| parse_param(a).unwrap()).collect()
}

fn build(args: &[&str], form: bool) -> Result<RequestSpec, HurlError> {
    build_request(None, "example.com", &params(args), &Vec::new(), form)
}

#[test]
fn query_goes_into_target() {
    let req = build(&["foo==bar"], false).unwrap();
    assert_eq!(req.target(), "example.com?foo=bar");
    assert_eq!(req.method, Method::Get);
}

#[test]
fn repeated_query_keys_survive() {
    let req = build(&["a==1", "b==2", "a==3"], false).unwrap();
    assert_eq!(req.target(), "example.com?a=1&b=2&a=3");
}

#[test]
fn no_query_keeps_url() {
    let req = build(&["X:1"], false).unwrap();
    assert_eq!(req.target(), "example.com");
}

#[test]
fn data_field_json_body() {
    let req = build(&["foo=bar"], false).unwrap();
    assert_eq!(serde_json::to_string(&req.json_body()).unwrap(), r#"{"foo":"bar"}"#);
    assert_eq!(req.method, Method::Post);
}

#[test]
fn raw_json_field_body() {
    let req = build(&["foo:=[1,2,3]"], false).unwrap();
    assert_eq!(serde_json::to_string(&req.json_body()).unwrap(), r#"{"foo":[1,2,3]}"#);
}

#[test]
fn upload_requires_form() {
    match build(&["key@photo.png"], false) {
        Err(HurlError::FileUploadRequiresForm { key }) => assert_eq!(key, "key"),
        other => panic!("unexpected {:?}", other.map(|r| r.target())),
    }
    let req = build(&["key@photo.png"], true).unwrap();
    assert_eq!(req.uploads, vec![("key".to_string(), "photo.png".to_string())]);
    assert!(req.form);
    assert_eq!(req.method, Method::Post);
}

#[test]
fn headers_last_write_wins_in_first_place() {
    let req = build(&["A:1", "B:2", "A:3"], false).unwrap();
    assert_eq!(
        req.headers,
        vec![("A".to_string(), "3".to_string()), ("B".to_string(), "2".to_string())]
    );
}

#[test]
fn body_last_write_wins() {
    let req = build(&["a=1", "b:=true", "a=2"], false).unwrap();
    assert_eq!(serde_json::to_string(&req.json_body()).unwrap(), r#"{"a":"2","b":true}"#);
    assert_eq!(req.body.len(), 2);
    assert_eq!(req.body[0], ("a".to_string(), FieldValue::Text("2".to_string())));
}

#[test]
fn explicit_method_wins() {
    let req =
        build_request(Some(Method::Put), "example.com", &params(&["X:1"]), &Vec::new(), false)
            .unwrap();
    assert_eq!(req.method, Method::Put);
}

#[test]
fn files_are_read_from_table() {
    let table = vec![
        ("bar.txt".to_string(), "from file".to_string()),
        ("bar.json".to_string(), r#"{"x":1}"#.to_string()),
    ];
    let req = build_request(None, "u", &params(&["foo=@bar.txt", "baz:=@bar.json"]), &table, false)
        .unwrap();
    assert_eq!(
        serde_json::to_string(&req.json_body()).unwrap(),
        r#"{"baz":{"x":1},"foo":"from file"}"#
    );
}

#[test]
fn missing_file_is_read_error() {
    let r = build_request(None, "u", &params(&["foo=@nope.txt"]), &Vec::new(), false);
    assert_eq!(r.err(), Some(HurlError::FileReadError { path: "nope.txt".to_string() }));
}

#[test]
fn file_with_bad_json_is_invalid_json() {
    let table = vec![("bad.json".to_string(), "{oops".to_string())];
    match build_request(None, "u", &params(&["k:=@bad.json"]), &table, false) {
        Err(HurlError::InvalidJson { key, .. }) => assert_eq!(key, "k"),
        other => panic!("unexpected {:?}", other.map(|r| r.target())),
    }
}

#[test]
fn same_parameters_build_same_request() {
    let a = build(&["A:1", "q==v", "d=x"], false).unwrap();
    let b = build(&["A:1", "q==v", "d=x"], false).unwrap();
    assert_eq!(a.target(), b.target());
    assert_eq!(a.headers, b.headers);
    assert_eq!(a.body, b.body);
    assert_eq!(a.method, b.method);
}

#[test]
fn json_fields_turn_text_into_strings() {
    let req = build(&["a=1", "b:=1"], false).unwrap();
    let f = req.json_fields();
    assert_eq!(f.len(), 2);
    assert_eq!(f[0], ("a".to_string(), serde_json::Value::String("1".to_string())));
    assert_eq!(serde_json::to_string(&f[1].1).unwrap(), "1");
}
