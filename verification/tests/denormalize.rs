use cache_proxy::denormalize::{assemble, denormalize};

fn by_pattern(input: &str) -> String {
    let pattern = lazy_regex::Regex::new(r"^/?([a-z][a-z0-9+\-.]*:)/+").unwrap();
    pattern.replace(input, "${1}//").to_string()
}

#[test]
fn collapsed_slash_is_restored() {
    assert_eq!(denormalize("https:/example.com/a"), "https://example.com/a");
    assert_eq!(denormalize("http:/example.com"), "http://example.com");
}

#[test]
fn leading_slash_is_stripped() {
    assert_eq!(denormalize("/https:/example.com/a"), "https://example.com/a");
    assert_eq!(denormalize("/https://example.com/a"), "https://example.com/a");
}

#[test]
fn any_number_of_slashes_becomes_two() {
    assert_eq!(denormalize("https://example.com/a"), "https://example.com/a");
    assert_eq!(denormalize("https:////example.com/a"), "https://example.com/a");
    assert_eq!(denormalize("https:/"), "https://");
}

#[test]
fn later_slashes_are_left_alone() {
    assert_eq!(denormalize("https:/example.com//a///b"), "https://example.com//a///b");
}

#[test]
fn other_schemes_are_rewritten_too() {
    assert_eq!(denormalize("ftp:/example.com"), "ftp://example.com");
    assert_eq!(denormalize("a+b-c.d1:/x"), "a+b-c.d1://x");
}

#[test]
fn text_that_is_no_target_is_unchanged() {
    for input in [
        "",
        "/",
        "//https:/example.com",
        "https:example.com",
        "https",
        "https:",
        "HTTPS:/example.com",
        "1http:/example.com",
        "ht tp:/example.com",
        "example.com/a:/b",
        "h\u{e9}:/x",
        ":/x",
    ] {
        assert_eq!(denormalize(input), input);
    }
}

#[test]
fn text_outside_ascii_is_carried_over() {
    assert_eq!(denormalize("https:/ex\u{e4}mple.com/\u{1F600}"), "https://ex\u{e4}mple.com/\u{1F600}");
}

#[test]
fn denormalizing_twice_is_denormalizing_once() {
    for input in [
        "https:/example.com/a",
        "/http:///example.com",
        "ftp:/x",
        "nothing",
        "/",
        "a:/",
        "/a:/b:/c",
    ] {
        let once = denormalize(input);
        assert_eq!(denormalize(&once), once);
    }
}

#[test]
fn path_form_of_a_url_gives_the_url_back() {
    for url in ["https://example.com/a?b=c", "http://example.com", "https://127.0.0.1:8080/x//y"] {
        let collapsed = url.replacen("://", ":/", 1);
        assert_eq!(denormalize(&collapsed), url);
        assert_eq!(denormalize(&format!("/{collapsed}")), url);
        assert_eq!(denormalize(url), url);
    }
}

#[test]
fn denormalize_agrees_with_the_pattern() {
    for input in [
        "",
        "/",
        "https:/example.com/a",
        "/https:/example.com/a",
        "//https:/example.com/a",
        "https://///example.com",
        "https:",
        "https:/",
        "https:x",
        "a:/",
        "a1+.-:/rest",
        "A:/x",
        "1a:/x",
        "/a:/b:/c",
        "a:b:/c",
        "http:/\u{fc}ber",
        "\u{fc}:/x",
        "a\u{fc}:/x",
        "http:/a\nb",
        "http\n:/a",
    ] {
        assert_eq!(denormalize(input), by_pattern(input), "for {input:?}");
    }
}

#[test]
fn query_string_is_put_back_behind_a_question_mark() {
    assert_eq!(assemble("https:/example.com/a", "x=1&y=2"), "https:/example.com/a?x=1&y=2");
}

#[test]
fn empty_query_string_adds_nothing() {
    assert_eq!(assemble("https:/example.com/a", ""), "https:/example.com/a");
    assert_eq!(assemble("", ""), "");
}
