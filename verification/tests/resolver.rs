use cache_proxy::resolver::{
    invalid_url_message, unknown_scheme_message, ShakyUrl, ShakyUrlError, UrlParts,
};

fn parts(href: &str, scheme: &str, host: Option<&str>) -> UrlParts {
    UrlParts {
        href: href.to_string(),
        scheme: scheme.to_string(),
        host: host.map(|h| h.to_string()),
    }
}

#[test]
fn request_path_resolves_to_its_url() {
    let url = ShakyUrl::from_request("https:/example.com/a", "").unwrap();
    assert_eq!(url.as_str(), "https://example.com/a");
    assert_eq!(url.scheme(), "https");
    assert_eq!(url.host(), "example.com");
}

#[test]
fn query_string_becomes_part_of_the_url() {
    let url = ShakyUrl::from_request("http:/example.com/search", "q=rust&page=2").unwrap();
    assert_eq!(url.as_str(), "http://example.com/search?q=rust&page=2");
    assert_eq!(url.scheme(), "http");
}

#[test]
fn parser_normalizes_the_target() {
    let url = ShakyUrl::from_request("HTTPS:/EXAMPLE.com", "").unwrap();
    assert_eq!(url.as_str(), "https://example.com/");
    assert_eq!(url.host(), "example.com");
}

#[test]
fn host_leaves_the_port_out() {
    let url = ShakyUrl::from_request("http:/example.com:8080/a", "").unwrap();
    assert_eq!(url.as_str(), "http://example.com:8080/a");
    assert_eq!(url.host(), "example.com");
}

#[test]
fn address_hosts_are_written_as_in_the_url() {
    let v4 = ShakyUrl::from_request("http:/127.0.0.1/a", "").unwrap();
    assert_eq!(v4.host(), "127.0.0.1");
    let v6 = ShakyUrl::from_request("http:/[::1]/a", "").unwrap();
    assert_eq!(v6.host(), "[::1]");
}

#[test]
fn other_schemes_are_turned_down_by_name() {
    for (path, scheme) in [
        ("ftp:/example.com/a", "ftp"),
        ("file:/etc/passwd", "file"),
        ("ws:/example.com", "ws"),
        ("mailto:/someone", "mailto"),
        ("data:/text", "data"),
    ] {
        match ShakyUrl::from_request(path, "") {
            Err(ShakyUrlError::String(message)) => {
                assert_eq!(message, format!("Unknown scheme: {scheme}"))
            }
            other => panic!("{path}: {other:?}"),
        }
    }
}

#[test]
fn text_that_is_no_url_is_a_parse_error() {
    assert_eq!(
        ShakyUrl::from_request("https:/", ""),
        Err(ShakyUrlError::ParseError(url::ParseError::EmptyHost))
    );
    assert_eq!(
        ShakyUrl::from_request("no url at all", ""),
        Err(ShakyUrlError::ParseError(url::ParseError::RelativeUrlWithoutBase))
    );
    assert_eq!(
        ShakyUrl::from_request("https:/example.com:99999/", ""),
        Err(ShakyUrlError::ParseError(url::ParseError::InvalidPort))
    );
}

#[test]
fn resolver_agrees_with_the_parser() {
    for text in ["https://example.com/a b?c=d#e", "http://EXAMPLE.com:80/./x/../y", "https://user:pw@example.com/"] {
        let expected = url::Url::parse(text).unwrap();
        let url = ShakyUrl::try_from(text).unwrap();
        assert_eq!(url.as_str(), expected.as_str());
        assert_eq!(url.scheme(), expected.scheme());
        assert_eq!(url.host(), expected.host().unwrap().to_string());
    }
}

#[test]
fn try_from_reports_failures_as_one_line() {
    assert_eq!(
        ShakyUrl::try_from("ftp:/example.com").unwrap_err(),
        "Unknown scheme: ftp"
    );
    assert_eq!(
        ShakyUrl::try_from("https:/").unwrap_err(),
        "Invalid url https:// Original error: empty host"
    );
    assert_eq!(
        ShakyUrl::try_from("nothing").unwrap_err(),
        "Invalid url nothing Original error: relative URL without a base"
    );
}

#[test]
fn try_from_denormalizes_first() {
    let url = ShakyUrl::try_from("/https:/example.com/a").unwrap();
    assert_eq!(url.as_str(), "https://example.com/a");
}

#[test]
fn accept_takes_http_and_https_with_a_host() {
    let url = ShakyUrl::accept(parts("https://example.com/", "https", Some("example.com"))).unwrap();
    assert_eq!(url.as_str(), "https://example.com/");
    assert_eq!(url.scheme(), "https");
    assert_eq!(url.host(), "example.com");
    let url = ShakyUrl::accept(parts("http://h/", "http", Some("h"))).unwrap();
    assert_eq!(url.scheme(), "http");
    assert_eq!(url.clone(), url);
}

#[test]
fn accept_turns_other_schemes_down() {
    assert_eq!(
        ShakyUrl::accept(parts("gopher://h/", "gopher", Some("h"))),
        Err(ShakyUrlError::String("Unknown scheme: gopher".to_string()))
    );
    assert_eq!(
        ShakyUrl::accept(parts("HTTP://h/", "HTTP", Some("h"))),
        Err(ShakyUrlError::String("Unknown scheme: HTTP".to_string()))
    );
    assert_eq!(
        ShakyUrl::accept(parts("", "", None)),
        Err(ShakyUrlError::String("Unknown scheme: ".to_string()))
    );
}

#[test]
fn accept_turns_a_url_without_host_down() {
    assert_eq!(
        ShakyUrl::accept(parts("http:", "http", None)),
        Err(ShakyUrlError::String("Missing host".to_string()))
    );
}

#[test]
fn error_messages_and_status() {
    let scheme = ShakyUrlError::String(unknown_scheme_message("ftp"));
    assert_eq!(scheme.message(), "Unknown scheme: ftp");
    assert_eq!(scheme.status_code().as_u16(), 500);
    let parse = ShakyUrlError::ParseError(url::ParseError::EmptyHost);
    assert_eq!(parse.message(), url::ParseError::EmptyHost.to_string());
    assert_eq!(parse.status_code().as_u16(), 500);
    assert_eq!(invalid_url_message("x", "y"), "Invalid url x Original error: y");
}
