use cache_proxy::headers::{copy_lines, kept_headers, outbound_headers, HttpHeaders};

fn lines(pairs: &[(&str, &str)]) -> Vec<(String, String)> {
    pairs.iter().map(|(name, value)| (name.to_string(), value.to_string())).collect()
}

#[test]
fn grouping_keeps_names_in_order_of_first_occurrence() {
    let headers = HttpHeaders::from_pairs(&lines(&[
        ("set-cookie", "a=1"),
        ("content-type", "text/html"),
        ("set-cookie", "b=2"),
        ("vary", "accept"),
        ("set-cookie", "c=3"),
    ]));
    assert_eq!(
        headers.lines(),
        lines(&[
            ("set-cookie", "a=1"),
            ("set-cookie", "b=2"),
            ("set-cookie", "c=3"),
            ("content-type", "text/html"),
            ("vary", "accept"),
        ])
    );
}

#[test]
fn grouping_nothing_gives_no_headers() {
    assert_eq!(HttpHeaders::from_pairs(&Vec::new()), HttpHeaders::new());
    assert_eq!(HttpHeaders::new().lines(), Vec::new());
    assert_eq!(HttpHeaders::new().to_json().unwrap(), "{}");
}

#[test]
fn grouping_is_exact_about_names() {
    let headers = HttpHeaders::from_pairs(&lines(&[("a", "1"), ("A", "2"), ("a ", "3"), ("a", "4")]));
    assert_eq!(headers.lines(), lines(&[("a", "1"), ("a", "4"), ("A", "2"), ("a ", "3")]));
}

#[test]
fn repeated_values_are_kept() {
    let headers = HttpHeaders::from_pairs(&lines(&[("x", "same"), ("x", "same"), ("x", "")]));
    assert_eq!(headers.lines(), lines(&[("x", "same"), ("x", "same"), ("x", "")]));
}

#[test]
fn headers_are_written_as_an_object_of_lists() {
    let headers = HttpHeaders::from_pairs(&lines(&[
        ("set-cookie", "a=1"),
        ("content-type", "text/html"),
        ("set-cookie", "b=2"),
    ]));
    assert_eq!(
        headers.to_json().unwrap(),
        r#"{"content-type":["text/html"],"set-cookie":["a=1","b=2"]}"#
    );
}

#[test]
fn headers_are_read_back_with_names_ascending() {
    let headers =
        HttpHeaders::from_json(r#"{"b":["2","3"],"a":["1"],"c":[]}"#).unwrap();
    assert_eq!(headers.lines(), lines(&[("a", "1"), ("b", "2"), ("b", "3")]));
    assert_eq!(headers.to_json().unwrap(), r#"{"a":["1"],"b":["2","3"],"c":[]}"#);
}

#[test]
fn text_that_is_no_object_of_lists_is_not_read() {
    for text in ["", "[]", "{", r#"{"a":"1"}"#, r#"{"a":[1]}"#, r#"{"a":["1"]} x"#, "null"] {
        assert!(HttpHeaders::from_json(text).is_none(), "{text}");
    }
}

#[test]
fn written_headers_read_back_the_same() {
    let sent = lines(&[
        ("set-cookie", "a=\"1\"; path=/"),
        ("x-odd", "back\\slash \u{1F600} \u{7} tab\t"),
        ("set-cookie", "b=2"),
        ("", "empty name"),
        ("x-empty", ""),
    ]);
    let headers = HttpHeaders::from_pairs(&sent);
    let text = headers.to_json().unwrap();
    let read = HttpHeaders::from_json(&text).unwrap();
    for name in ["set-cookie", "x-odd", "", "x-empty", "absent"] {
        let written: Vec<String> =
            sent.iter().filter(|l| l.0 == name).map(|l| l.1.clone()).collect();
        let got: Vec<String> =
            read.lines().into_iter().filter(|l| l.0 == name).map(|l| l.1).collect();
        assert_eq!(got, written, "{name}");
    }
    assert_eq!(read.lines().len(), sent.len());
}

#[test]
fn a_copy_of_headers_is_equal() {
    let headers = HttpHeaders::from_pairs(&lines(&[("b", "1"), ("a", "2"), ("b", "3")]));
    assert_eq!(headers.clone(), headers);
    assert_eq!(headers.clone().lines(), headers.lines());
    let list = lines(&[("b", "1"), ("a", "2")]);
    assert_eq!(copy_lines(&list), list);
}

#[test]
fn hop_headers_of_the_origin_are_dropped() {
    let kept = kept_headers(&lines(&[
        ("content-type", "text/plain"),
        ("connection", "keep-alive"),
        ("content-encoding", "gzip"),
        ("content-length", "2"),
        ("connection", "close"),
        ("x-connection", "stays"),
    ]));
    assert_eq!(
        kept,
        lines(&[("content-type", "text/plain"), ("content-length", "2"), ("x-connection", "stays")])
    );
}

#[test]
fn nothing_else_is_dropped() {
    let all = lines(&[("a", "1"), ("transfer-encoding", "chunked"), ("a", "2")]);
    assert_eq!(kept_headers(&all), all);
    assert_eq!(kept_headers(&Vec::new()), Vec::new());
}

#[test]
fn host_is_set_to_the_target() {
    let out = outbound_headers(
        &lines(&[("accept", "*/*"), ("host", "localhost:8080"), ("cookie", "a"), ("cookie", "b")]),
        "example.com",
    );
    assert_eq!(
        out,
        lines(&[("accept", "*/*"), ("cookie", "a"), ("cookie", "b"), ("host", "example.com")])
    );
}

#[test]
fn host_is_added_where_the_client_sent_none() {
    assert_eq!(outbound_headers(&Vec::new(), "example.com"), lines(&[("host", "example.com")]));
}

#[test]
fn every_host_of_the_client_is_replaced_by_one() {
    let out = outbound_headers(&lines(&[("host", "a"), ("x", "y"), ("host", "b")]), "c");
    assert_eq!(out, lines(&[("x", "y"), ("host", "c")]));
}
