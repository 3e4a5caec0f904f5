//! What one fetched page yields: whether it is a hit, and where its links
//! lead.

use crate::config::Config;
use crate::document::{
    body_fits, selected_attrs, selects_any, texts_view, Document, StrSelector, MAX_BODY_BYTES,
};
use crate::resolver::{resolution, resolve, Resolution, ResolutionView};
use crate::weburl::{urls_view, ParseError, ParseErrorView, Url, UrlView};
use vstd::prelude::*;
use vstd::string::*;

verus! {

/// The attribute that holds the target of a link.
pub const LINK_ATTRIBUTE: &'static str = "href";

/// A link that was dropped because its target is no URL.
#[derive(Debug, PartialEq, Eq, Hash)]
pub struct DroppedLink {
    /// The reference as the page writes it.
    pub href: String,
    /// Why it is no URL.
    pub error: ParseError,
}

/// What a `DroppedLink` stands for.
pub struct DroppedLinkView {
    pub href: Seq<char>,
    pub error: ParseErrorView,
}

impl View for DroppedLink {
    type V = DroppedLinkView;

    open spec fn view(&self) -> DroppedLinkView {
        DroppedLinkView { href: self.href@, error: self.error@ }
    }
}

/// The outcome of crawling one page.
#[derive(Debug, PartialEq, Eq, Hash)]
pub struct SingleCrawl {
    /// The page that was crawled.
    pub domain: Url,
    /// Where the links of the page lead, in the order in which the link
    /// selector yields them. Nothing has been left out for having been
    /// visited, or for the policy's sake.
    pub unexhausted_domains: Vec<Url>,
    /// Whether the page is a hit.
    pub is_hit: bool,
    /// The links that were dropped, in the order in which the link selector
    /// yields them.
    pub dropped: Vec<DroppedLink>,
}

/// What a `SingleCrawl` stands for.
pub struct SingleCrawlView {
    pub domain: UrlView,
    pub unexhausted_domains: Seq<UrlView>,
    pub is_hit: bool,
    pub dropped: Seq<DroppedLinkView>,
}

/// The views of a list of dropped links.
pub open spec fn dropped_view(dropped: Seq<DroppedLink>) -> Seq<DroppedLinkView> {
    dropped.map_values(|link: DroppedLink| link@)
}

impl View for SingleCrawl {
    type V = SingleCrawlView;

    open spec fn view(&self) -> SingleCrawlView {
        SingleCrawlView {
            domain: self.domain@,
            unexhausted_domains: urls_view(self.unexhausted_domains@),
            is_hit: self.is_hit,
            dropped: dropped_view(self.dropped@),
        }
    }
}

/// Where the references `hrefs`, found on the page `base`, lead: the URL of
/// each one that resolves, in their order. An element without a reference,
/// a fragment and a reference that is no URL add nothing.
pub open spec fn outbound(base: UrlView, hrefs: Seq<Option<Seq<char>>>) -> Seq<UrlView>
    decreases hrefs.len(),
{
    if hrefs.len() == 0 {
        Seq::empty()
    } else {
        let before = outbound(base, hrefs.drop_last());
        match hrefs.last() {
            Some(href) => match resolution(base, href) {
                ResolutionView::Resolved(url) => before.push(url),
                _ => before,
            },
            None => before,
        }
    }
}

/// The references among `hrefs` that are no URL, each with the reason, in
/// their order.
pub open spec fn unresolved(base: UrlView, hrefs: Seq<Option<Seq<char>>>) -> Seq<DroppedLinkView>
    decreases hrefs.len(),
{
    if hrefs.len() == 0 {
        Seq::empty()
    } else {
        let before = unresolved(base, hrefs.drop_last());
        match hrefs.last() {
            Some(href) => match resolution(base, href) {
                ResolutionView::Failed(error) => before.push(DroppedLinkView { href, error }),
                _ => before,
            },
            None => before,
        }
    }
}

/// The outcome for a page that could not be fetched: no hit, no links.
pub open spec fn failed_crawl(domain: UrlView) -> SingleCrawlView {
    SingleCrawlView {
        domain,
        unexhausted_domains: Seq::empty(),
        is_hit: false,
        dropped: Seq::empty(),
    }
}

/// The outcome for a fetched page, given whether it is a hit and the
/// references of its links.
pub open spec fn fetched_crawl(
    domain: UrlView,
    is_hit: bool,
    hrefs: Seq<Option<Seq<char>>>,
) -> SingleCrawlView {
    SingleCrawlView {
        domain,
        unexhausted_domains: outbound(domain, hrefs),
        is_hit,
        dropped: unresolved(domain, hrefs),
    }
}

/// Whether the page written `body` is a hit: the match selector picks one of
/// its elements, or there is no match selector.
pub open spec fn hit(match_criteria: Option<Seq<char>>, body: Seq<char>) -> bool {
    match match_criteria {
        Some(selector) => selects_any(body, selector),
        None => true,
    }
}

/// The outcome of crawling the page `domain`, whose fetch gave `response`:
/// the body, or nothing when the fetch failed. A body that is too long to be
/// parsed counts as one that could not be read.
pub open spec fn crawl_outcome(
    domain: UrlView,
    match_criteria: Option<Seq<char>>,
    link_selector: Seq<char>,
    response: Option<Seq<char>>,
) -> SingleCrawlView {
    match response {
        Some(body) => if body_fits(body) {
            fetched_crawl(
                domain,
                hit(match_criteria, body),
                selected_attrs(body, link_selector, LINK_ATTRIBUTE@),
            )
        } else {
            failed_crawl(domain)
        },
        None => failed_crawl(domain),
    }
}

/// The view of a body that may be absent.
pub open spec fn response_view(response: Option<&str>) -> Option<Seq<char>> {
    match response {
        Some(body) => Some(body@),
        None => None,
    }
}

impl SingleCrawl {
    /// The outcome for a page that could not be fetched.
    pub fn failed(domain: &Url) -> (crawl: SingleCrawl)
        ensures
            crawl@ == failed_crawl(domain@),
    {
        let crawl = SingleCrawl {
            domain: domain.clone(),
            unexhausted_domains: Vec::new(),
            is_hit: false,
            dropped: Vec::new(),
        };
        assert(urls_view(crawl.unexhausted_domains@) =~= Seq::empty());
        assert(dropped_view(crawl.dropped@) =~= Seq::empty());
        crawl
    }

    /// The outcome for a fetched page: `is_hit` says whether it is a hit, and
    /// `hrefs` holds, for each link of the page, its reference if it has
    /// one.
    pub fn fetched(domain: &Url, is_hit: bool, hrefs: &Vec<Option<String>>) -> (crawl: SingleCrawl)
        ensures
            crawl@ == fetched_crawl(domain@, is_hit, texts_view(hrefs@)),
    {
        let ghost all = texts_view(hrefs@);
        let mut legs: Vec<Url> = Vec::new();
        let mut dropped: Vec<DroppedLink> = Vec::new();
        let mut i: usize = 0;
        while i < hrefs.len()
            invariant
                i <= hrefs.len(),
                all == texts_view(hrefs@),
                urls_view(legs@) =~= outbound(domain@, all.take(i as int)),
                dropped_view(dropped@) =~= unresolved(domain@, all.take(i as int)),
            decreases hrefs.len() - i,
        {
            proof {
                assert(all.take(i + 1).drop_last() =~= all.take(i as int));
            }
            match &hrefs[i] {
                Some(href) => match resolve(domain, href.as_str()) {
                    Resolution::Resolved(url) => {
                        legs.push(url);
                    },
                    Resolution::Skip => {},
                    Resolution::Failed(error) => {
                        dropped.push(DroppedLink { href: href.clone(), error });
                    },
                },
                None => {},
            }
            i += 1;
        }
        assert(all.take(i as int) =~= all);
        SingleCrawl { domain: domain.clone(), unexhausted_domains: legs, is_hit, dropped }
    }
}

/// Whether the page is a hit.
pub fn is_hit(document: &Document, config: &Config) -> (found: bool)
    ensures
        found == hit(config@.match_criteria, document@),
{
    match &config.match_criteria {
        Some(selector) => document.matches(selector),
        None => true,
    }
}

/// Crawls the page `domain`, whose fetch gave `response`: classifies the page
/// and resolves its links. A fetch that failed gives a page that is no hit
/// and has no links, and so does a body of more than `MAX_BODY_BYTES` bytes.
pub fn crawl_single(
    domain: &Url,
    config: &Config,
    link_selector: &StrSelector,
    response: Option<&str>,
) -> (crawl: SingleCrawl)
    ensures
        crawl@ == crawl_outcome(
            domain@,
            config@.match_criteria,
            link_selector@,
            response_view(response),
        ),
{
    match response {
        Some(body) => {
            if body.as_bytes().len() <= MAX_BODY_BYTES {
                let document = Document::parse(body);
                let found = is_hit(&document, config);
                let hrefs = document.select_attrs(link_selector, LINK_ATTRIBUTE);
                SingleCrawl::fetched(domain, found, &hrefs)
            } else {
                SingleCrawl::failed(domain)
            }
        },
        None => SingleCrawl::failed(domain),
    }
}

} // verus!
