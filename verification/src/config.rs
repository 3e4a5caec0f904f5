//! The configuration of a crawl, and the policy that decides which pages may
//! be crawled.

use crate::base64::{base64, encode};
use crate::document::{selector_parses, StrSelector};
use crate::identity::same_host;
use crate::pattern::{any_matches, matches_any, patterns_view, Pattern};
use crate::weburl::{urls_view, Url, UrlView};
use std::time::Duration;
use vstd::prelude::*;
use vstd::string::*;
use vstd::utf8::{encode_utf8, is_ascii_chars_encode_utf8};

verus! {

/// The selector for links that is used where the configuration names none:
/// every anchor that has an `href`.
pub const DEFAULT_LINK_SELECTOR: &'static str = "a[href]";

/// The name of the header that says what kind of page is asked for.
pub const ACCEPT: &'static str = "ACCEPT";

/// The kind of page that is asked for.
pub const ACCEPTED: &'static str = "text/html";

/// The name of the header that carries the user and the password.
pub const AUTHORIZATION: &'static str = "AUTHORIZATION";

/// What the value of that header begins with: the name of the scheme, and a
/// space.
pub const BASIC: &'static str = "Basic ";

/// A header of a request.
#[derive(Debug)]
pub struct Header {
    pub name: String,
    pub value: String,
}

/// What a `Header` stands for.
pub struct HeaderView {
    pub name: Seq<char>,
    pub value: Seq<char>,
}

impl View for Header {
    type V = HeaderView;

    open spec fn view(&self) -> HeaderView {
        HeaderView { name: self.name@, value: self.value@ }
    }
}

/// The views of a list of headers.
pub open spec fn headers_view(headers: Seq<Header>) -> Seq<HeaderView> {
    headers.map_values(|header: Header| header@)
}

/// The user and the password that go with every request.
#[derive(Debug)]
pub struct BasicAuthCreds {
    pub user: String,
    pub pass: String,
}

impl BasicAuthCreds {
    /// The user, a colon, the password.
    pub fn pair(&self) -> (pair: String)
        ensures
            pair@ == self@.pair(),
    {
        let mut pair = self.user.clone();
        proof {
            reveal_strlit(":");
        }
        pair.append(":");
        pair.append(self.pass.as_str());
        pair
    }

    /// The value of the authorization header: the word `Basic`, a space, and
    /// the base64 encoding of the user, a colon and the password.
    pub fn authorization(&self) -> (value: String)
        ensures
            value@ == self@.authorization(),
    {
        let pair = self.pair();
        let encoded = encode(pair.as_str().as_bytes());
        let mut value = BASIC.to_owned();
        value.append(encoded.as_str());
        value
    }
}

/// What a crawl is told: where to start, what to leave out, what counts as a
/// hit. Nothing changes it while a crawl runs.
pub struct Config {
    /// The pages to start from. A page on the host of one of them may be
    /// crawled whatever the blacklist says.
    pub domains: Vec<Url>,
    /// A URL that one of these matches is left out, unless the whitelist or
    /// the seed domains rescue it.
    pub blacklist: Vec<Pattern>,
    /// A URL that one of these matches may be crawled whatever the blacklist
    /// says.
    pub whitelist: Vec<Pattern>,
    /// A URL that one of these matches is left out, whatever else holds.
    pub super_blacklist: Vec<Pattern>,
    /// Kept for the configuration's sake. The engine never reads it.
    pub respect_robots_txt: bool,
    /// Kept for the configuration's sake. The engine never reads it.
    pub clean_output: bool,
    /// A page is a hit when this selector picks one of its elements; without
    /// a selector every page is a hit.
    pub match_criteria: Option<StrSelector>,
    /// The selector for the links of a page; without one,
    /// `DEFAULT_LINK_SELECTOR` is used.
    pub link_criteria: Option<StrSelector>,
    /// What goes with every request, if anything.
    pub basic_auth: Option<BasicAuthCreds>,
    /// How long to pause after each page.
    pub period: Duration,
}

/// What a `BasicAuthCreds` stands for.
pub struct BasicAuthCredsView {
    pub user: Seq<char>,
    pub pass: Seq<char>,
}

impl View for BasicAuthCreds {
    type V = BasicAuthCredsView;

    open spec fn view(&self) -> BasicAuthCredsView {
        BasicAuthCredsView { user: self.user@, pass: self.pass@ }
    }
}

impl BasicAuthCredsView {
    /// The user, a colon, the password.
    pub open spec fn pair(self) -> Seq<char> {
        self.user + seq![':'] + self.pass
    }

    /// The value of the authorization header, the credentials of the Basic
    /// scheme: the word `Basic`, a space, and the base64 encoding of the
    /// UTF-8 bytes of the user, a colon and the password.
    pub open spec fn authorization(self) -> Seq<char> {
        BASIC@ + base64(encode_utf8(self.pair()))
    }
}

/// What a `Config` stands for: the seeds as URLs, the patterns and the
/// selectors as their texts.
pub struct ConfigView {
    pub domains: Seq<UrlView>,
    pub blacklist: Seq<Seq<char>>,
    pub whitelist: Seq<Seq<char>>,
    pub super_blacklist: Seq<Seq<char>>,
    pub respect_robots_txt: bool,
    pub clean_output: bool,
    pub match_criteria: Option<Seq<char>>,
    pub link_criteria: Option<Seq<char>>,
    pub basic_auth: Option<BasicAuthCredsView>,
    pub period: Duration,
}

/// The text of a selector that may be absent.
pub open spec fn selector_view(selector: Option<StrSelector>) -> Option<Seq<char>> {
    match selector {
        Some(selector) => Some(selector@),
        None => None,
    }
}

impl View for Config {
    type V = ConfigView;

    open spec fn view(&self) -> ConfigView {
        ConfigView {
            domains: urls_view(self.domains@),
            blacklist: patterns_view(self.blacklist@),
            whitelist: patterns_view(self.whitelist@),
            super_blacklist: patterns_view(self.super_blacklist@),
            respect_robots_txt: self.respect_robots_txt,
            clean_output: self.clean_output,
            match_criteria: selector_view(self.match_criteria),
            link_criteria: selector_view(self.link_criteria),
            basic_auth: match self.basic_auth {
                Some(auth) => Some(auth@),
                None => None,
            },
            period: self.period,
        }
    }
}

/// The verdict of the policy on a URL, given what the lists say of it: the
/// blacklist does not match it, or the whitelist or the seed domains rescue
/// it; and the super-blacklist does not match it.
pub open spec fn allowed(
    in_blacklist: bool,
    in_whitelist: bool,
    in_domains: bool,
    in_super_blacklist: bool,
) -> bool {
    (!in_blacklist || in_whitelist || in_domains) && !in_super_blacklist
}

/// Whether one of the first `n` seeds has the host of `url`.
pub open spec fn host_among_first(seeds: Seq<UrlView>, n: int, url: UrlView) -> bool {
    exists|i: int| 0 <= i < n && (#[trigger] seeds[i]).host == url.host
}

impl ConfigView {
    /// Whether one of the blacklist's patterns matches the URL's text.
    pub open spec fn in_blacklist(self, url: UrlView) -> bool {
        any_matches(self.blacklist, url.href)
    }

    /// Whether one of the whitelist's patterns matches the URL's text.
    pub open spec fn in_whitelist(self, url: UrlView) -> bool {
        any_matches(self.whitelist, url.href)
    }

    /// Whether one of the super-blacklist's patterns matches the URL's text.
    pub open spec fn in_super_blacklist(self, url: UrlView) -> bool {
        any_matches(self.super_blacklist, url.href)
    }

    /// Whether the URL has the host of one of the seeds.
    pub open spec fn in_domains(self, url: UrlView) -> bool {
        host_among_first(self.domains, self.domains.len() as int, url)
    }

    /// Whether the URL may be crawled.
    pub open spec fn eligible(self, url: UrlView) -> bool {
        allowed(
            self.in_blacklist(url),
            self.in_whitelist(url),
            self.in_domains(url),
            self.in_super_blacklist(url),
        )
    }

    /// Whether every one of the first `n` seeds may be crawled.
    pub open spec fn first_seeds_eligible(self, n: int) -> bool {
        forall|i: int| 0 <= i < n ==> self.eligible(#[trigger] self.domains[i])
    }

    /// Whether every seed may be crawled.
    pub open spec fn seeds_eligible(self) -> bool {
        self.first_seeds_eligible(self.domains.len() as int)
    }

    /// The headers that go with every request: the kind of page that is
    /// asked for, and the user and password where the configuration has
    /// them.
    pub open spec fn request_headers(self) -> Seq<HeaderView> {
        let accept = HeaderView { name: ACCEPT@, value: ACCEPTED@ };
        match self.basic_auth {
            Some(auth) => seq![
                accept,
                HeaderView { name: AUTHORIZATION@, value: auth.authorization() },
            ],
            None => seq![accept],
        }
    }

    /// The text of the selector for links: that of the configured one, or
    /// `default` where none is configured.
    pub open spec fn link_selector(self, default: Seq<char>) -> Seq<char> {
        match self.link_criteria {
            Some(configured) => configured,
            None => default,
        }
    }
}

impl Config {
    /// Whether `domain` has the host of one of the seeds.
    pub fn is_seed_host(&self, domain: &Url) -> (found: bool)
        ensures
            found == self@.in_domains(domain@),
    {
        let mut i: usize = 0;
        while i < self.domains.len()
            invariant
                i <= self.domains.len(),
                !host_among_first(self@.domains, i as int, domain@),
            decreases self.domains.len() - i,
        {
            if same_host(&self.domains[i].host, &domain.host) {
                assert(self@.domains[i as int].host == domain@.host);
                return true;
            }
            i += 1;
        }
        false
    }

    /// Whether `domain` may be crawled.
    pub fn valid_domain(&self, domain: &Url) -> (valid: bool)
        ensures
            valid == self@.eligible(domain@),
    {
        let domain_str = domain.as_str();
        let in_blacklist = matches_any(&self.blacklist, domain_str);
        let in_whitelist = matches_any(&self.whitelist, domain_str);
        let in_domains = self.is_seed_host(domain);
        let in_super_blacklist = matches_any(&self.super_blacklist, domain_str);
        verdict(in_blacklist, in_whitelist, in_domains, in_super_blacklist)
    }

    /// The first seed that may not be crawled, by its place among the seeds;
    /// `None` when every seed may be. A configuration with such a seed is not
    /// fit for a crawl.
    pub fn first_invalid_domain(&self) -> (place: Option<usize>)
        ensures
            place is None <==> self@.seeds_eligible(),
            place matches Some(i) ==> i < self@.domains.len() && !self@.eligible(
                self@.domains[i as int],
            ) && self@.first_seeds_eligible(i as int),
    {
        let mut i: usize = 0;
        while i < self.domains.len()
            invariant
                i <= self.domains.len(),
                self@.first_seeds_eligible(i as int),
            decreases self.domains.len() - i,
        {
            if !self.valid_domain(&self.domains[i]) {
                assert(!self@.eligible(self@.domains[i as int]));
                return Some(i);
            }
            i += 1;
        }
        None
    }

    /// The headers that go with every request.
    pub fn request_headers(&self) -> (headers: Vec<Header>)
        ensures
            headers_view(headers@) == self@.request_headers(),
    {
        let mut headers: Vec<Header> = Vec::new();
        headers.push(Header { name: ACCEPT.to_owned(), value: ACCEPTED.to_owned() });
        match &self.basic_auth {
            Some(auth) => {
                headers.push(
                    Header { name: AUTHORIZATION.to_owned(), value: auth.authorization() },
                );
            },
            None => {},
        }
        assert(headers_view(headers@) =~= self@.request_headers());
        headers
    }

    /// The selector for links: the configured one, or `default` where none is
    /// configured.
    pub fn link_selector<'a>(&'a self, default: &'a StrSelector) -> (selector: &'a StrSelector)
        ensures
            selector@ == self@.link_selector(default@),
    {
        match &self.link_criteria {
            Some(configured) => configured,
            None => default,
        }
    }
}

/// The verdict of the policy on a URL, given what the lists say of it.
pub fn verdict(
    in_blacklist: bool,
    in_whitelist: bool,
    in_domains: bool,
    in_super_blacklist: bool,
) -> (may_crawl: bool)
    ensures
        may_crawl == allowed(in_blacklist, in_whitelist, in_domains, in_super_blacklist),
{
    (!in_blacklist || in_whitelist || in_domains) && !in_super_blacklist
}

/// The selector for links that stands in for a missing one.
pub fn default_link_selector() -> (selector: Option<StrSelector>)
    ensures
        selector is Some <==> selector_parses(DEFAULT_LINK_SELECTOR@),
        selector is Some ==> selector->0@ == DEFAULT_LINK_SELECTOR@,
{
    proof {
        reveal_strlit("a[href]");
        is_ascii_chars_encode_utf8(DEFAULT_LINK_SELECTOR@);
    }
    StrSelector::parse(DEFAULT_LINK_SELECTOR)
}

/// The policy is a function of what the configuration and the URL stand
/// for: asked twice of the same configuration and the same URL, it answers
/// the same.
pub proof fn lemma_policy_is_a_function(a: Config, b: Config, x: Url, y: Url)
    requires
        a@ == b@,
        x@ == y@,
    ensures
        a@.eligible(x@) == b@.eligible(y@),
{
}

/// The policy reads the text and the host of the URL, the patterns of the
/// three lists and the hosts of the seeds, and nothing else.
pub proof fn lemma_policy_reads(a: ConfigView, b: ConfigView, x: UrlView, y: UrlView)
    requires
        a.blacklist == b.blacklist,
        a.whitelist == b.whitelist,
        a.super_blacklist == b.super_blacklist,
        a.domains.map_values(|seed: UrlView| seed.host) == b.domains.map_values(
            |seed: UrlView| seed.host,
        ),
        x.href == y.href,
        x.host == y.host,
    ensures
        a.eligible(x) == b.eligible(y),
{
    let ah = a.domains.map_values(|seed: UrlView| seed.host);
    let bh = b.domains.map_values(|seed: UrlView| seed.host);
    assert(ah.len() == bh.len());
    if a.in_domains(x) {
        let i = choose|i: int| 0 <= i < a.domains.len() && (#[trigger] a.domains[i]).host == x.host;
        assert(ah[i] == bh[i]);
    }
    if b.in_domains(y) {
        let i = choose|i: int| 0 <= i < b.domains.len() && (#[trigger] b.domains[i]).host == y.host;
        assert(ah[i] == bh[i]);
    }
}

/// The super-blacklist is absolute: a URL that it matches may not be crawled,
/// whatever the whitelist and the seeds say.
pub proof fn lemma_super_blacklist_is_absolute(config: ConfigView, url: UrlView)
    requires
        config.in_super_blacklist(url),
    ensures
        !config.eligible(url),
{
}

/// The seeds and the whitelist override the blacklist: a URL on the host of a
/// seed, or one that the whitelist matches, may be crawled unless the
/// super-blacklist matches it.
pub proof fn lemma_rescue_overrides_blacklist(config: ConfigView, url: UrlView)
    requires
        config.in_domains(url) || config.in_whitelist(url),
    ensures
        config.eligible(url) == !config.in_super_blacklist(url),
{
}

/// Without a whitelist and without seeds the blacklist is absolute, and
/// without a blacklist only the super-blacklist keeps a URL out.
pub proof fn lemma_empty_lists(config: ConfigView, url: UrlView)
    ensures
        config.whitelist.len() == 0 && config.domains.len() == 0 && config.in_blacklist(url)
            ==> !config.eligible(url),
        config.blacklist.len() == 0 ==> config.eligible(url) == !config.in_super_blacklist(url),
{
}

/// A seed is on its own host, so only the super-blacklist can keep it out.
pub proof fn lemma_seed_is_rescued(config: ConfigView, i: int)
    requires
        0 <= i < config.domains.len(),
    ensures
        config.eligible(config.domains[i]) == !config.in_super_blacklist(config.domains[i]),
{
}

} // verus!
