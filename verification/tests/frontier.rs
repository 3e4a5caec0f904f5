use creepy::{
    admit_candidates, crawl_single, default_link_selector, next_candidates, Config, Crawler, Frontier,
    PartialUrl, Pattern, SingleCrawl, Url, VisitedSet,
};
use std::collections::HashMap;
use std::time::Duration;

fn urls(texts: &[&str]) -> Vec<Url> {
    texts.iter().map(|text| Url::parse(text).unwrap()).collect()
}

fn hrefs(urls: &[Url]) -> Vec<&str> {
    urls.iter().map(|url| url.as_str()).collect()
}

fn config(seeds: &[&str], black: &[&str]) -> Config {
    Config {
        domains: urls(seeds),
        blacklist: black.iter().map(|text| Pattern::new(text).unwrap()).collect(),
        whitelist: Vec::new(),
        super_blacklist: Vec::new(),
        respect_robots_txt: false,
        clean_output: false,
        match_criteria: None,
        link_criteria: None,
        basic_auth: None,
        period: Duration::from_secs(0),
    }
}

fn key(text: &str) -> PartialUrl {
    PartialUrl::new(&Url::parse(text).unwrap())
}

fn outcome(page: &str, is_hit: bool, links: &[&str]) -> SingleCrawl {
    SingleCrawl {
        domain: Url::parse(page).unwrap(),
        unexhausted_domains: urls(links),
        is_hit,
        dropped: Vec::new(),
    }
}

/// Runs a crawl over pages that are held in memory. Returns the frontier
/// and the URLs that were fetched, in order.
fn crawl(seeds: &[&str], config: &Config, pages: &HashMap<&str, &str>) -> (Frontier, Vec<String>) {
    let links = default_link_selector().unwrap();
    let mut fetched = Vec::new();
    let (mut frontier, mut level) = Frontier::start(&urls(seeds), config);
    while !level.is_empty() {
        let mut results = Vec::new();
        for page in &level {
            fetched.push(page.href.clone());
            let body = pages.get(page.as_str()).copied();
            results.push(crawl_single(page, config, &links, body));
        }
        level = frontier.advance(&results, config);
    }
    (frontier, fetched)
}

#[test]
fn the_visited_set_holds_a_key_once() {
    let mut visited = VisitedSet::new();
    assert_eq!(visited.len(), 0);
    assert!(!visited.contains(&key("https://a.com/p")));
    assert!(visited.insert(key("https://a.com/p?x=1")));
    assert!(visited.contains(&key("https://a.com/p")));
    assert!(!visited.insert(key("http://a.com/p?x=2#f")));
    assert!(visited.insert(key("https://a.com/q")));
    assert!(!visited.contains(&key("https://b.com/p")));
    assert_eq!(visited.len(), 2);
}

#[test]
fn a_level_admits_a_key_once() {
    let config = config(&[], &[]);
    let mut visited = VisitedSet::new();
    let level = admit_candidates(
        &urls(&["https://a.com/p?x=1", "https://a.com/q", "https://a.com/p?x=2", "http://a.com/q#f"]),
        &config,
        &mut visited,
    );
    assert_eq!(hrefs(&level), vec!["https://a.com/p?x=1", "https://a.com/q"]);
    assert_eq!(visited.len(), 2);
}

#[test]
fn a_later_level_does_not_admit_what_an_earlier_one_did() {
    let config = config(&[], &[]);
    let mut visited = VisitedSet::new();
    let first = admit_candidates(&urls(&["https://a.com/", "https://a.com/p"]), &config, &mut visited);
    let second = admit_candidates(
        &urls(&["https://a.com/p?again", "https://a.com/new", "https://a.com/"]),
        &config,
        &mut visited,
    );
    let third = admit_candidates(&urls(&["https://a.com/new#x", "https://a.com/p"]), &config, &mut visited);
    assert_eq!(hrefs(&first), vec!["https://a.com/", "https://a.com/p"]);
    assert_eq!(hrefs(&second), vec!["https://a.com/new"]);
    assert!(third.is_empty());
    assert_eq!(visited.len(), 3);
}

#[test]
fn a_level_leaves_out_what_the_policy_forbids() {
    let config = config(&["https://good.com"], &[".*"]);
    let mut visited = VisitedSet::new();
    let level = admit_candidates(
        &urls(&["https://bad.com/x", "https://good.com/x", "mailto:x@y.com", "https://good.com/y"]),
        &config,
        &mut visited,
    );
    assert_eq!(hrefs(&level), vec!["https://good.com/x", "https://good.com/y"]);
    assert!(!visited.contains(&key("https://bad.com/x")));
    assert_eq!(visited.len(), 2);
}

#[test]
fn hits_and_misses_are_kept_in_order() {
    let mut crawler = Crawler::new();
    crawler.accumulate(&outcome("https://a.com/1", true, &[]));
    crawler.accumulate(&outcome("https://a.com/2", false, &[]));
    crawler.accumulate(&outcome("https://a.com/3", true, &[]));
    assert_eq!(hrefs(&crawler.hits), vec!["https://a.com/1", "https://a.com/3"]);
    assert_eq!(hrefs(&crawler.misses), vec!["https://a.com/2"]);
    assert_eq!(crawler.hit_lines(), "\nhttps://a.com/1\nhttps://a.com/3");
    assert_eq!(Crawler::new().hit_lines(), "");
}

#[test]
fn the_next_candidates_are_the_links_of_all_pages() {
    let results = vec![
        outcome("https://a.com/1", true, &["https://a.com/x", "https://a.com/y"]),
        outcome("https://a.com/2", false, &[]),
        outcome("https://a.com/3", true, &["https://a.com/x", "https://b.com/"]),
    ];
    assert_eq!(
        hrefs(&next_candidates(&results)),
        vec!["https://a.com/x", "https://a.com/y", "https://a.com/x", "https://b.com/"]
    );
    assert!(next_candidates(&Vec::new()).is_empty());
}

#[test]
fn a_level_without_candidates_ends_the_crawl() {
    let config = config(&[], &[]);
    let (mut frontier, level) = Frontier::start(&Vec::new(), &config);
    assert!(level.is_empty());
    assert!(frontier.advance(&Vec::new(), &config).is_empty());
    assert!(frontier.crawler.hits.is_empty());
    assert!(frontier.crawler.misses.is_empty());
    assert_eq!(frontier.visited.len(), 0);
}

#[test]
fn the_frontier_goes_level_by_level() {
    let config = config(&[], &[]);
    let (mut frontier, level) = Frontier::start(&urls(&["https://a.com/", "https://a.com/#again"]), &config);
    assert_eq!(hrefs(&level), vec!["https://a.com/"]);
    let level = frontier.advance(
        &vec![outcome("https://a.com/", true, &["https://a.com/x", "https://a.com/", "https://a.com/y"])],
        &config,
    );
    assert_eq!(hrefs(&level), vec!["https://a.com/x", "https://a.com/y"]);
    let level = frontier.advance(
        &vec![
            outcome("https://a.com/x", false, &["https://a.com/y", "https://a.com/z"]),
            outcome("https://a.com/y", true, &["https://a.com/z?other", "https://a.com/x"]),
        ],
        &config,
    );
    assert_eq!(hrefs(&level), vec!["https://a.com/z"]);
    let level = frontier.advance(&vec![outcome("https://a.com/z", true, &[])], &config);
    assert!(level.is_empty());
    assert_eq!(hrefs(&frontier.crawler.hits), vec!["https://a.com/", "https://a.com/y", "https://a.com/z"]);
    assert_eq!(hrefs(&frontier.crawler.misses), vec!["https://a.com/x"]);
    assert_eq!(frontier.visited.len(), 4);
}

#[test]
fn end_to_end() {
    let config = config(&["https://site.test/"], &[".*"]);
    let mut pages = HashMap::new();
    pages.insert(
        "https://site.test/",
        "<html><body><a href='/inner'>in</a><a href='https://excluded.test/page'>out</a></body></html>",
    );
    pages.insert("https://site.test/inner", "<html><body>No links here.</body></html>");
    pages.insert("https://excluded.test/page", "<html><body><a href='/more'>more</a></body></html>");
    assert_eq!(config.first_invalid_domain(), None);
    let (frontier, fetched) = crawl(&["https://site.test/"], &config, &pages);
    assert_eq!(hrefs(&frontier.crawler.hits), vec!["https://site.test/", "https://site.test/inner"]);
    assert!(frontier.crawler.misses.is_empty());
    assert_eq!(fetched, vec!["https://site.test/", "https://site.test/inner"]);
    assert!(!frontier.visited.contains(&key("https://excluded.test/page")));
    assert_eq!(frontier.crawler.hit_lines(), "\nhttps://site.test/\nhttps://site.test/inner");
}

#[test]
fn no_page_is_fetched_twice() {
    let config = config(&[], &[]);
    let mut pages = HashMap::new();
    pages.insert("https://a.test/", "<a href='/x?from=root'>x</a><a href='/y'>y</a><a href='/'>home</a><a href='/x?again'>x</a>");
    pages.insert("https://a.test/x?from=root", "<a href='/y#part'>y</a><a href='/'>home</a><a href='/z'>z</a>");
    pages.insert("https://a.test/y", "<a href='/x?from=y'>x</a><a href='/z?from=y'>z</a><a href='#top'>top</a>");
    pages.insert("https://a.test/z", "<a href='/'>home</a><a href='/gone'>gone</a>");
    let (frontier, fetched) = crawl(&["https://a.test/", "http://a.test/#same"], &config, &pages);
    assert_eq!(
        fetched,
        vec!["https://a.test/", "https://a.test/x?from=root", "https://a.test/y", "https://a.test/z", "https://a.test/gone"]
    );
    let mut keys: Vec<PartialUrl> = fetched.iter().map(|text| key(text)).collect();
    keys.sort();
    keys.dedup();
    assert_eq!(keys.len(), fetched.len());
    assert_eq!(frontier.visited.len(), fetched.len());
    assert_eq!(frontier.crawler.hits.len(), 4);
    assert_eq!(hrefs(&frontier.crawler.misses), vec!["https://a.test/gone"]);
}

#[test]
fn a_link_without_host_is_not_fetched_where_only_seeds_pass() {
    let config = config(&["https://a.test/"], &[".*"]);
    let mut pages = HashMap::new();
    pages.insert("https://a.test/", "<a href='mailto:x@y.com'>mail</a><a href='/next'>next</a>");
    pages.insert("https://a.test/next", "");
    let (frontier, fetched) = crawl(&["https://a.test/"], &config, &pages);
    assert_eq!(fetched, vec!["https://a.test/", "https://a.test/next"]);
    assert_eq!(hrefs(&frontier.crawler.hits), vec!["https://a.test/", "https://a.test/next"]);
}

#[test]
fn a_failed_fetch_does_not_end_the_crawl() {
    let config = config(&[], &[]);
    let mut pages = HashMap::new();
    pages.insert("https://a.test/", "<a href='/gone'>gone</a><a href='/there'>there</a>");
    pages.insert("https://a.test/there", "<a href='/deeper'>deeper</a>");
    pages.insert("https://a.test/deeper", "");
    let (frontier, fetched) = crawl(&["https://a.test/"], &config, &pages);
    assert_eq!(fetched.len(), 4);
    assert_eq!(
        hrefs(&frontier.crawler.hits),
        vec!["https://a.test/", "https://a.test/there", "https://a.test/deeper"]
    );
    assert_eq!(hrefs(&frontier.crawler.misses), vec!["https://a.test/gone"]);
}

#[test]
fn the_visited_set_finds_what_it_holds_whatever_the_order() {
    let texts = [
        "https://m.com/q", "https://a.com/", "mailto:x@y.com", "http://10.0.0.1/", "https://z.com/a",
        "https://m.com/", "http://[::1]/", "https://m.com/p", "http://9.0.0.1/", "https://b.com/x/y",
        "data:text/plain,Stuff", "https://a.com/z", "foo://1.2.3.4/", "https://m.com/q/r",
    ];
    let mut visited = VisitedSet::new();
    for (count, text) in texts.iter().enumerate() {
        assert!(!visited.contains(&key(text)));
        assert!(visited.insert(key(text)));
        assert_eq!(visited.len(), count + 1);
        for held in &texts[..=count] {
            assert!(visited.contains(&key(held)));
        }
        for absent in &texts[count + 1..] {
            assert!(!visited.contains(&key(absent)));
        }
    }
    for text in texts.iter().rev() {
        assert!(!visited.insert(key(text)));
    }
    assert_eq!(visited.len(), texts.len());
}
