//! Absolute URLs as plain values: the text of a URL and the parts of it that
//! the crawler reads.

use vstd::prelude::*;

verus! {

/// The host of a URL.
#[derive(Debug, PartialEq, Eq, PartialOrd, Ord, Hash)]
pub enum Host {
    /// A domain name, or the opaque host of a URL whose scheme is not special.
    Domain(String),
    /// An IPv4 address, as its 32 bits.
    Ipv4(u32),
    /// An IPv6 address, as its 128 bits.
    Ipv6(u128),
}

/// What a `Host` stands for.
pub enum HostView {
    Domain(Seq<char>),
    Ipv4(u32),
    Ipv6(u128),
}

impl View for Host {
    type V = HostView;

    open spec fn view(&self) -> HostView {
        match *self {
            Host::Domain(name) => HostView::Domain(name@),
            Host::Ipv4(bits) => HostView::Ipv4(bits),
            Host::Ipv6(bits) => HostView::Ipv6(bits),
        }
    }
}

impl Clone for Host {
    fn clone(&self) -> (copy: Host)
        ensures
            copy@ == self@,
    {
        match self {
            Host::Domain(name) => Host::Domain(name.clone()),
            Host::Ipv4(bits) => Host::Ipv4(*bits),
            Host::Ipv6(bits) => Host::Ipv6(*bits),
        }
    }
}

/// The view of a host that may be absent.
pub open spec fn host_view(host: Option<Host>) -> Option<HostView> {
    match host {
        Some(h) => Some(h@),
        None => None,
    }
}

/// The view of a text that may be absent.
pub open spec fn text_view(text: Option<String>) -> Option<Seq<char>> {
    match text {
        Some(t) => Some(t@),
        None => None,
    }
}

/// An absolute URL.
///
/// The fields are independent plain values. `Url::parse` fills them from one
/// text; a `Url` written by hand holds whatever its author put there.
#[derive(Debug, PartialEq, Eq, Hash)]
pub struct Url {
    /// The whole URL, as it is written.
    pub href: String,
    /// The scheme, without the colon.
    pub scheme: String,
    /// The host, if the URL has one.
    pub host: Option<Host>,
    /// The host as it stands in `href`, if the URL has one.
    pub host_str: Option<String>,
    /// The path, without query and fragment.
    pub path: String,
}

/// What a `Url` stands for.
pub struct UrlView {
    pub href: Seq<char>,
    pub scheme: Seq<char>,
    pub host: Option<HostView>,
    pub host_str: Option<Seq<char>>,
    pub path: Seq<char>,
}

impl View for Url {
    type V = UrlView;

    open spec fn view(&self) -> UrlView {
        UrlView {
            href: self.href@,
            scheme: self.scheme@,
            host: host_view(self.host),
            host_str: text_view(self.host_str),
            path: self.path@,
        }
    }
}

/// The views of a list of URLs.
pub open spec fn urls_view(urls: Seq<Url>) -> Seq<UrlView> {
    urls.map_values(|url: Url| url@)
}

impl Clone for Url {
    fn clone(&self) -> (copy: Url)
        ensures
            copy@ == self@,
    {
        Url {
            href: self.href.clone(),
            scheme: self.scheme.clone(),
            host: match &self.host {
                Some(host) => Some(host.clone()),
                None => None,
            },
            host_str: match &self.host_str {
                Some(text) => Some(text.clone()),
                None => None,
            },
            path: self.path.clone(),
        }
    }
}

/// Why a text is no absolute URL.
#[derive(Debug, PartialEq, Eq, Hash)]
pub enum ParseError {
    /// The text is a relative reference, and there is no base to resolve it
    /// against.
    RelativeUrlWithoutBase,
    /// Any other fault, with the parser's description of it.
    Other(String),
}

/// What a `ParseError` stands for.
pub enum ParseErrorView {
    RelativeUrlWithoutBase,
    Other(Seq<char>),
}

impl View for ParseError {
    type V = ParseErrorView;

    open spec fn view(&self) -> ParseErrorView {
        match *self {
            ParseError::RelativeUrlWithoutBase => ParseErrorView::RelativeUrlWithoutBase,
            ParseError::Other(reason) => ParseErrorView::Other(reason@),
        }
    }
}

impl Clone for ParseError {
    fn clone(&self) -> (copy: ParseError)
        ensures
            copy@ == self@,
    {
        match self {
            ParseError::RelativeUrlWithoutBase => ParseError::RelativeUrlWithoutBase,
            ParseError::Other(reason) => ParseError::Other(reason.clone()),
        }
    }
}

/// The view of the outcome of parsing.
pub open spec fn outcome_view(outcome: Result<Url, ParseError>) -> Result<
    UrlView,
    ParseErrorView,
> {
    match outcome {
        Ok(url) => Ok(url@),
        Err(error) => Err(error@),
    }
}

/// What the URL parser makes of a text: the URL, or the reason why the text
/// is none.
pub uninterp spec fn parsed_url(input: Seq<char>) -> Result<UrlView, ParseErrorView>;

/// `url::Url::parse`, with the URL that it returns taken apart by `as_str`,
/// `scheme`, `host`, `host_str` and `path`, an address as its bits, and with
/// the fault that it returns told apart as a missing base or any other, the
/// latter with its description.
///
/// The contract claims only that the outcome is a function of the text.
#[verifier::external_body]
fn parse_absolute(input: &str) -> (outcome: Result<Url, ParseError>)
    ensures
        outcome_view(outcome) == parsed_url(input@),
{
    match url::Url::parse(input) {
        Ok(u) => Ok(Url {
            href: u.as_str().to_string(),
            scheme: u.scheme().to_string(),
            host: u.host().map(|h| match h {
                url::Host::Domain(d) => Host::Domain(d.to_string()),
                url::Host::Ipv4(a) => Host::Ipv4(a.to_bits()),
                url::Host::Ipv6(a) => Host::Ipv6(a.to_bits()),
            }),
            host_str: u.host_str().map(String::from),
            path: u.path().to_string(),
        }),
        Err(url::ParseError::RelativeUrlWithoutBase) => Err(ParseError::RelativeUrlWithoutBase),
        Err(e) => Err(ParseError::Other(e.to_string())),
    }
}

impl Url {
    /// Parses an absolute URL.
    pub fn parse(input: &str) -> (outcome: Result<Url, ParseError>)
        ensures
            outcome_view(outcome) == parsed_url(input@),
    {
        parse_absolute(input)
    }

    /// The whole URL as text.
    pub fn as_str(&self) -> (text: &str)
        ensures
            text@ == self@.href,
    {
        self.href.as_str()
    }
}

} // verus!
