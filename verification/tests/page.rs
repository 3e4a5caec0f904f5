use creepy::page::is_hit;
use creepy::{crawl_single, default_link_selector, Config, Document, ParseError, SingleCrawl, StrSelector, Url};
use std::time::Duration;

const BODY: &str = "<html><body>\
    <a href='/one'>one</a>\
    <p><a href='https://b.com/two?x=1#y' name='x'>two</a></p>\
    <A HREF='#top'>top</A>\
    <a name='q'>no target</a>\
    <a href='http://[::1'>broken</a>\
    <a href=':80x'>odd</a>\
    <a href='mailto:x@y.com'>mail</a>\
    <form></form>\
    </body></html>";

fn config(match_criteria: Option<&str>) -> Config {
    Config {
        domains: Vec::new(),
        blacklist: Vec::new(),
        whitelist: Vec::new(),
        super_blacklist: Vec::new(),
        respect_robots_txt: false,
        clean_output: false,
        match_criteria: match_criteria.map(|css| StrSelector::parse(css).unwrap()),
        link_criteria: None,
        basic_auth: None,
        period: Duration::from_secs(0),
    }
}

fn hrefs(urls: &[Url]) -> Vec<&str> {
    urls.iter().map(|url| url.as_str()).collect()
}

#[test]
fn a_page_yields_its_links_in_order() {
    let page = Url::parse("https://a.com/dir/page").unwrap();
    let crawl = crawl_single(&page, &config(None), &default_link_selector().unwrap(), Some(BODY));
    assert_eq!(crawl.domain.as_str(), "https://a.com/dir/page");
    assert!(crawl.is_hit);
    assert_eq!(
        hrefs(&crawl.unexhausted_domains),
        vec!["https://a.com/one", "https://b.com/two?x=1#y", "mailto:x@y.com"]
    );
}

#[test]
fn a_page_reports_the_links_it_dropped() {
    let page = Url::parse("https://a.com/dir/page").unwrap();
    let crawl = crawl_single(&page, &config(None), &default_link_selector().unwrap(), Some(BODY));
    assert_eq!(crawl.dropped.len(), 2);
    assert_eq!(crawl.dropped[0].href, "http://[::1");
    assert!(matches!(&crawl.dropped[0].error, ParseError::Other(reason) if reason == "invalid IPv6 address"));
    assert_eq!(crawl.dropped[1].href, ":80x");
    assert!(matches!(crawl.dropped[1].error, ParseError::RelativeUrlWithoutBase));
}

#[test]
fn a_link_that_is_dropped_leaves_the_others_alone() {
    let page = Url::parse("https://a.com/").unwrap();
    let body = "<a href='http://[::1'>broken</a><a href='/fine'>fine</a>";
    let crawl = crawl_single(&page, &config(None), &default_link_selector().unwrap(), Some(body));
    assert_eq!(hrefs(&crawl.unexhausted_domains), vec!["https://a.com/fine"]);
    assert_eq!(crawl.dropped.len(), 1);
}

#[test]
fn the_match_selector_decides_the_hit() {
    let page = Url::parse("https://a.com/").unwrap();
    let links = default_link_selector().unwrap();
    assert!(crawl_single(&page, &config(Some("form")), &links, Some(BODY)).is_hit);
    assert!(!crawl_single(&page, &config(Some("table")), &links, Some(BODY)).is_hit);
    assert!(!crawl_single(&page, &config(Some("form.is-form")), &links, Some(BODY)).is_hit);
    assert!(crawl_single(&page, &config(None), &links, Some("")).is_hit);
    let document = Document::parse(BODY);
    assert!(is_hit(&document, &config(Some("p a[name=x]"))));
    assert!(!is_hit(&document, &config(Some("p form"))));
    assert!(is_hit(&document, &config(None)));
}

#[test]
fn the_link_selector_decides_the_links() {
    let page = Url::parse("https://a.com/").unwrap();
    let narrow = StrSelector::parse("p a").unwrap();
    let crawl = crawl_single(&page, &config(None), &narrow, Some(BODY));
    assert_eq!(hrefs(&crawl.unexhausted_domains), vec!["https://b.com/two?x=1#y"]);
    let wide = StrSelector::parse("a, form").unwrap();
    let crawl = crawl_single(&page, &config(None), &wide, Some(BODY));
    assert_eq!(crawl.unexhausted_domains.len(), 3);
    assert_eq!(crawl.dropped.len(), 2);
}

#[test]
fn a_failed_fetch_is_no_hit_and_has_no_links() {
    let page = Url::parse("https://a.com/gone").unwrap();
    let crawl = crawl_single(&page, &config(None), &default_link_selector().unwrap(), None);
    assert_eq!(crawl.domain.as_str(), "https://a.com/gone");
    assert!(!crawl.is_hit);
    assert!(crawl.unexhausted_domains.is_empty());
    assert!(crawl.dropped.is_empty());
    let failed = SingleCrawl::failed(&page);
    assert!(!failed.is_hit);
    assert!(failed.unexhausted_domains.is_empty());
    let matching = crawl_single(&page, &config(Some("html")), &default_link_selector().unwrap(), None);
    assert!(!matching.is_hit);
}

#[test]
fn an_outcome_is_assembled_from_the_references() {
    let page = Url::parse("https://a.com/dir/page").unwrap();
    let references = vec![
        Some(String::from("/one")),
        None,
        Some(String::from("#top")),
        Some(String::from("http://[::1")),
        Some(String::from("https://b.com/")),
        Some(String::from("/one")),
    ];
    let crawl = SingleCrawl::fetched(&page, false, &references);
    assert!(!crawl.is_hit);
    assert_eq!(
        hrefs(&crawl.unexhausted_domains),
        vec!["https://a.com/one", "https://b.com/", "https://a.com/one"]
    );
    assert_eq!(crawl.dropped.len(), 1);
    assert_eq!(crawl.dropped[0].href, "http://[::1");
    let empty = SingleCrawl::fetched(&page, true, &Vec::new());
    assert!(empty.is_hit);
    assert!(empty.unexhausted_domains.is_empty());
}

#[test]
fn a_document_hands_out_the_attributes_of_what_a_selector_picks() {
    let document = Document::parse(BODY);
    let anchors = StrSelector::parse("a").unwrap();
    assert_eq!(
        document.select_attrs(&anchors, "name"),
        vec![None, Some(String::from("x")), None, Some(String::from("q")), None, None, None]
    );
    let with_target = StrSelector::parse("a[href]").unwrap();
    assert_eq!(document.select_attrs(&with_target, "href").len(), 6);
    assert!(document.matches(&anchors));
    assert!(!document.matches(&StrSelector::parse("table").unwrap()));
    assert!(document.select_attrs(&StrSelector::parse("table").unwrap(), "href").is_empty());
}

#[test]
fn a_text_that_is_no_selector_is_refused() {
    assert!(StrSelector::parse("a[").is_none());
    assert!(StrSelector::parse("").is_none());
    assert!(StrSelector::parse("a >").is_none());
    let selector = StrSelector::parse("a.is-link:not(button)").unwrap();
    assert_eq!(selector.as_str(), "a.is-link:not(button)");
}

#[test]
fn a_body_too_long_to_parse_counts_as_unread() {
    let page = Url::parse("https://a.com/huge").unwrap();
    let mut body = String::from("<a href='/one'>one</a>");
    let filler = " ".repeat(1 << 20);
    while body.len() <= creepy::document::MAX_BODY_BYTES {
        body.push_str(&filler);
    }
    let crawl = crawl_single(&page, &config(None), &default_link_selector().unwrap(), Some(&body));
    assert_eq!(crawl, SingleCrawl::failed(&page));
    assert!(!crawl.is_hit);
    assert!(crawl.unexhausted_domains.is_empty());
    assert!(crawl.dropped.is_empty());
}

#[test]
fn a_selector_too_long_to_parse_is_refused() {
    let longest = "a".repeat(creepy::document::MAX_SELECTOR_BYTES);
    assert_eq!(StrSelector::parse(&longest).unwrap().as_str(), longest);
    let longer = "a".repeat(creepy::document::MAX_SELECTOR_BYTES + 1);
    assert!(StrSelector::parse(&longer).is_none());
}

#[test]
fn outcomes_compare_by_what_they_hold() {
    let page = Url::parse("https://a.com/").unwrap();
    let links = default_link_selector().unwrap();
    let one = crawl_single(&page, &config(None), &links, Some(BODY));
    let same = crawl_single(&page, &config(None), &links, Some(BODY));
    let other = crawl_single(&page, &config(Some("table")), &links, Some(BODY));
    assert_eq!(one, same);
    assert_ne!(one, other);
    assert_ne!(one, SingleCrawl::failed(&page));
    let mut seen = std::collections::HashSet::new();
    assert!(seen.insert(one));
    assert!(!seen.insert(same));
    assert!(seen.insert(other));
    assert_eq!(page, page.clone());
    assert_ne!(page, Url::parse("https://a.com/?q").unwrap());
    assert_eq!(ParseError::RelativeUrlWithoutBase, ParseError::RelativeUrlWithoutBase.clone());
}
