use dupewatch::links::extract_links;

fn links_of(text: &str) -> Vec<String> {
    extract_links(&text.as_bytes().to_vec())
        .into_iter()
        .map(|l| String::from_utf8(l).unwrap())
        .collect()
}

#[test]
fn extracts_simple_url() {
    assert_eq!(links_of("check out http://example.com/a"), vec!["http://example.com/a"]);
}

#[test]
fn no_url_shaped_substring_yields_nothing() {
    assert_eq!(links_of(""), Vec::<String>::new());
    assert_eq!(links_of("no links here at all"), Vec::<String>::new());
    assert_eq!(links_of("www.example.com is schemeless"), Vec::<String>::new());
    assert_eq!(links_of("http:/example.com misses a slash"), Vec::<String>::new());
}

#[test]
fn all_three_schemes_match() {
    assert_eq!(links_of("https://example.com/x"), vec!["https://example.com/x"]);
    assert_eq!(links_of("ftp://files.example.org/f1"), vec!["ftp://files.example.org/f1"]);
    assert_eq!(links_of("http://example.com/x"), vec!["http://example.com/x"]);
}

#[test]
fn matches_appear_in_order_duplicates_kept() {
    assert_eq!(
        links_of("first https://a.bc then https://a.bc then ftp://files.example.org/f1"),
        vec!["https://a.bc", "https://a.bc", "ftp://files.example.org/f1"]
    );
}

#[test]
fn trailing_punctuation_is_trimmed() {
    assert_eq!(links_of("see https://example.com/page, next"), vec!["https://example.com/page"]);
    assert_eq!(links_of("(http://foo.bar/baz)."), vec!["http://foo.bar/baz"]);
    assert_eq!(links_of("end of https://example.com/q:"), vec!["https://example.com/q"]);
}

#[test]
fn host_needs_an_interior_dot_and_a_tail() {
    assert_eq!(links_of("https://localhost/x"), Vec::<String>::new());
    assert_eq!(links_of("https://a.b"), Vec::<String>::new());
    assert_eq!(links_of("https://a.bc"), vec!["https://a.bc"]);
    assert_eq!(links_of("https://a..bc"), Vec::<String>::new());
}

#[test]
fn query_and_fragment_bytes_stay_in_the_match() {
    assert_eq!(
        links_of("go https://example.com/p?q=1&r=2#frag now"),
        vec!["https://example.com/p?q=1&r=2#frag"]
    );
}

#[test]
fn match_found_mid_word() {
    assert_eq!(links_of("xhttps://a.bc"), vec!["https://a.bc"]);
}

#[test]
fn multibyte_text_around_a_url_is_handled() {
    assert_eq!(links_of("héllo → https://a.bc ✨"), vec!["https://a.bc"]);
}

#[test]
fn scheme_requires_colon_and_both_slashes() {
    assert_eq!(links_of("ftp//a.bc"), Vec::<String>::new());
    assert_eq!(links_of("https:a.bc"), Vec::<String>::new());
}
