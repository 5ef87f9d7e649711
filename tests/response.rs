use hurl::{dash_spaces, decimal_chars, format_response, normalize_header_name};

fn string_of(v: &[char]) -> String {
    v.iter().collect()
}

fn pairs(h: &[(&str, &str)]) -> Vec<(String, String)> {
    h.iter().map(|(k, v)| (k.to_string(), v.to_string())).collect()
}

#[test]
fn headers_sorted_and_normalized() {
    let h = pairs(&[("content-type", "text/plain"), ("content-length", "3")]);
    let out = format_response("HTTP/1.1", 200, Some("OK"), &h, "abc", Some(3));
    assert_eq!(
        out,
        "HTTP/1.1 200 OK\nContent-Length: 3\nContent-Length: 3\nContent-Type: text/plain\nabc\n"
    );
    let a = out.find("Content-Length: 3").unwrap();
    let b = out.find("Content-Type: text/plain").unwrap();
    assert!(a < b);
}

#[test]
fn bad_json_body_printed_raw() {
    let out = format_response("HTTP/1.1", 200, Some("OK"), &Vec::new(), "{not json", None);
    assert_eq!(out, "HTTP/1.1 200 OK\nContent-Length: 9\n{not json\n");
}

#[test]
fn json_object_body_pretty_sorted() {
    let out = format_response("HTTP/1.1", 201, Some("Created"), &Vec::new(), r#"{"b":1,"a":[true]}"#, Some(18));
    assert_eq!(
        out,
        "HTTP/1.1 201 Created\nContent-Length: 18\n{\n  \"a\": [\n    true\n  ],\n  \"b\": 1\n}\n"
    );
}

#[test]
fn json_array_body_printed_raw() {
    let out = format_response("HTTP/1.1", 200, Some("OK"), &Vec::new(), "[1, 2]", None);
    assert_eq!(out, "HTTP/1.1 200 OK\nContent-Length: 6\n[1, 2]\n");
}

#[test]
fn formatting_twice_is_identical() {
    let h = pairs(&[("x-b", "2"), ("x-a", "1")]);
    let body = r#"{"z":0,"y":{"k":"v"}}"#;
    let one = format_response("HTTP/2.0", 404, None, &h, body, None);
    let two = format_response("HTTP/2.0", 404, None, &h, body, None);
    assert_eq!(one, two);
    let raw_one = format_response("HTTP/2.0", 404, None, &h, "plain", None);
    let raw_two = format_response("HTTP/2.0", 404, None, &h, "plain", None);
    assert_eq!(raw_one, raw_two);
}

#[test]
fn missing_reason_is_unknown() {
    let out = format_response("HTTP/1.1", 599, None, &Vec::new(), "", None);
    assert_eq!(out, "HTTP/1.1 599 Unknown\nContent-Length: 0\n\n");
}

#[test]
fn content_length_falls_back_to_body_bytes() {
    let out = format_response("HTTP/1.1", 200, Some("OK"), &Vec::new(), "héllo", None);
    assert!(out.contains("Content-Length: 6\n"));
    let reported = format_response("HTTP/1.1", 200, Some("OK"), &Vec::new(), "héllo", Some(42));
    assert!(reported.contains("Content-Length: 42\n"));
}

#[test]
fn equal_names_sorted_by_value() {
    let h = pairs(&[("set-cookie", "b=2"), ("date", "today"), ("set-cookie", "a=1")]);
    let out = format_response("HTTP/1.1", 200, Some("OK"), &h, "", Some(0));
    assert_eq!(
        out,
        "HTTP/1.1 200 OK\nContent-Length: 0\nDate: today\nSet-Cookie: a=1\nSet-Cookie: b=2\n\n"
    );
}

#[test]
fn output_independent_of_wire_order() {
    let one = pairs(&[("a", "1"), ("a", "2"), ("x-b", "z"), ("content-type", "text/plain")]);
    let two = pairs(&[("content-type", "text/plain"), ("a", "2"), ("x-b", "z"), ("a", "1")]);
    let first = format_response("HTTP/1.1", 200, Some("OK"), &one, "{}", None);
    let second = format_response("HTTP/1.1", 200, Some("OK"), &two, "{}", None);
    assert_eq!(first, second);
    assert!(first.contains("A: 1\nA: 2\n"));
}

#[test]
fn header_names_title_cased() {
    assert_eq!(normalize_header_name("content-type"), "Content-Type");
    assert_eq!(normalize_header_name("x-api-token"), "X-Api-Token");
    assert_eq!(dash_spaces("Content Type"), "Content-Type");
}

#[test]
fn decimal_digits() {
    assert_eq!(string_of(&decimal_chars(0)), "0");
    assert_eq!(string_of(&decimal_chars(404)), "404");
    assert_eq!(string_of(&decimal_chars(u64::MAX)), "18446744073709551615");
}
