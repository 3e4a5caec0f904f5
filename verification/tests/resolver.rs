use creepy::resolver::{first_attempt, repair, second_attempt, starts_fragment};
use creepy::{resolve, ParseError, Resolution, Url};

fn base() -> Url {
    Url::parse("https://a.com/dir/page").unwrap()
}

fn resolved(base: &Url, href: &str) -> String {
    match resolve(base, href) {
        Resolution::Resolved(url) => url.href,
        other => panic!("not resolved: {:?}", other),
    }
}

#[test]
fn relative_link_resolution() {
    let base = base();
    assert_eq!(resolved(&base, "/other"), "https://a.com/other");
    assert!(matches!(resolve(&base, "#top"), Resolution::Skip));
    // The parser takes `mailto:x@y.com` for an absolute URL, one without a
    // host. Resolving it is no fault; that nothing is fetched for it is the
    // policy's doing, which the tests of the frontier show.
    match resolve(&base, "mailto:x@y.com") {
        Resolution::Resolved(url) => {
            assert_eq!(url.href, "mailto:x@y.com");
            assert_eq!(url.host, None);
        }
        other => panic!("unexpected: {:?}", other),
    }
}

#[test]
fn an_absolute_link_is_taken_as_it_is() {
    let base = base();
    assert_eq!(resolved(&base, "http://b.org/x?y=1#z"), "http://b.org/x?y=1#z");
    assert_eq!(resolved(&base, "HTTP://B.org"), "http://b.org/");
}

#[test]
fn a_relative_link_goes_behind_scheme_and_host() {
    let base = Url::parse("http://a.com:8080/dir/page?q=1").unwrap();
    assert_eq!(repair(&base, "/other"), "http://a.com/other");
    assert_eq!(repair(&base, ""), "http://a.com");
    assert_eq!(resolved(&base, "/other?x=1#y"), "http://a.com/other?x=1#y");
    let numbered = Url::parse("http://[::1]:8080/dir").unwrap();
    assert_eq!(repair(&numbered, "/x"), "http://[::1]/x");
}

#[test]
fn what_the_repair_does_not_handle() {
    let base = base();
    // No slash between host and reference, no `..`, no `//host`, no bare query.
    assert_eq!(repair(&base, "other"), "https://a.comother");
    assert_eq!(resolved(&base, "other"), "https://a.comother/");
    assert_eq!(resolved(&base, "../y"), "https://a.com../y");
    assert_eq!(repair(&base, "//b.com/path"), "https://a.com//b.com/path");
    assert_eq!(resolved(&base, "//b.com/path"), "https://a.com//b.com/path");
    assert_eq!(resolved(&base, "?page=2"), "https://a.com/?page=2");
}

#[test]
fn an_empty_reference_leads_to_the_root_of_the_host() {
    assert_eq!(resolved(&base(), ""), "https://a.com/");
}

#[test]
fn a_page_without_host_lends_the_word_empty() {
    let base = Url::parse("data:text/plain,Stuff").unwrap();
    assert_eq!(repair(&base, "/x"), "data://EMPTY/x");
    assert_eq!(resolved(&base, "/x"), "data://EMPTY/x");
}

#[test]
fn only_a_leading_hash_makes_a_fragment() {
    assert!(starts_fragment("#"));
    assert!(starts_fragment("#top"));
    assert!(!starts_fragment(""));
    assert!(!starts_fragment("/a#top"));
    assert!(!starts_fragment(" #top"));
    assert_eq!(resolved(&base(), "/a#top"), "https://a.com/a#top");
}

#[test]
fn a_link_that_is_no_url_is_dropped_with_the_reason() {
    match resolve(&base(), "http://[::1") {
        Resolution::Failed(ParseError::Other(reason)) => assert_eq!(reason, "invalid IPv6 address"),
        other => panic!("unexpected: {:?}", other),
    }
    match resolve(&base(), "https://a.com:port/") {
        Resolution::Failed(ParseError::Other(reason)) => assert_eq!(reason, "invalid port number"),
        other => panic!("unexpected: {:?}", other),
    }
}

#[test]
fn a_relative_link_that_cannot_be_repaired_is_dropped() {
    assert!(matches!(
        resolve(&base(), ":80x"),
        Resolution::Failed(ParseError::RelativeUrlWithoutBase)
    ));
}

#[test]
fn the_first_parse_settles_all_but_relative_links() {
    let url = Url::parse("https://b.com/").unwrap();
    assert!(matches!(first_attempt("https://b.com/", Ok(url)), Some(Resolution::Resolved(u)) if u.href == "https://b.com/"));
    assert!(matches!(first_attempt("#x", Err(ParseError::RelativeUrlWithoutBase)), Some(Resolution::Skip)));
    assert!(first_attempt("/x", Err(ParseError::RelativeUrlWithoutBase)).is_none());
    assert!(first_attempt("", Err(ParseError::RelativeUrlWithoutBase)).is_none());
    assert!(matches!(
        first_attempt("#x", Err(ParseError::Other(String::from("why")))),
        Some(Resolution::Failed(ParseError::Other(reason))) if reason == "why"
    ));
}

#[test]
fn the_second_parse_settles_the_rest() {
    let url = Url::parse("https://a.com/x").unwrap();
    assert!(matches!(second_attempt(Ok(url)), Resolution::Resolved(u) if u.path == "/x"));
    assert!(matches!(
        second_attempt(Err(ParseError::Other(String::from("why")))),
        Resolution::Failed(ParseError::RelativeUrlWithoutBase)
    ));
    assert!(matches!(
        second_attempt(Err(ParseError::RelativeUrlWithoutBase)),
        Resolution::Failed(ParseError::RelativeUrlWithoutBase)
    ));
}
