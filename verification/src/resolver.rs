//! From the `href` of a link to an absolute URL.
//!
//! A reference that is not absolute is put behind the scheme and the host of
//! the page it stands on. That is all: `..` segments, references that begin
//! with `//` and references that hold only a query are not treated as a
//! browser would treat them.

use crate::weburl::{outcome_view, parsed_url, ParseError, ParseErrorView, Url, UrlView};
use vstd::prelude::*;
use vstd::string::*;

verus! {

/// What became of one `href`.
#[derive(Debug)]
pub enum Resolution {
    /// The link leads to this URL.
    Resolved(Url),
    /// The link stays on its page, and is not followed.
    Skip,
    /// The link is no URL, for this reason, and is dropped.
    Failed(ParseError),
}

/// What a `Resolution` stands for.
pub enum ResolutionView {
    Resolved(UrlView),
    Skip,
    Failed(ParseErrorView),
}

impl View for Resolution {
    type V = ResolutionView;

    open spec fn view(&self) -> ResolutionView {
        match *self {
            Resolution::Resolved(url) => ResolutionView::Resolved(url@),
            Resolution::Skip => ResolutionView::Skip,
            Resolution::Failed(error) => ResolutionView::Failed(error@),
        }
    }
}

/// The view of a resolution that may be absent.
pub open spec fn settled_view(settled: Option<Resolution>) -> Option<ResolutionView> {
    match settled {
        Some(resolution) => Some(resolution@),
        None => None,
    }
}

/// The reference names a place on its own page: it begins with `#`.
pub open spec fn is_fragment(href: Seq<char>) -> bool {
    href.len() > 0 && href[0] == '#'
}

/// What stands for the host of a page that has none.
pub open spec fn missing_host() -> Seq<char> {
    seq!['E', 'M', 'P', 'T', 'Y']
}

/// A relative reference made absolute: the scheme of the page, `://`, the
/// host of the page, and the reference as it is written.
pub open spec fn repaired(base: UrlView, href: Seq<char>) -> Seq<char> {
    base.scheme + seq![':', '/', '/'] + (match base.host_str {
        Some(host) => host,
        None => missing_host(),
    }) + href
}

/// What the first parse settles: an absolute URL is the result, a fragment is
/// skipped, any fault but a missing base drops the link. A relative reference
/// that is no fragment is not settled yet.
pub open spec fn after_first_parse(
    href: Seq<char>,
    first: Result<UrlView, ParseErrorView>,
) -> Option<ResolutionView> {
    match first {
        Ok(url) => Some(ResolutionView::Resolved(url)),
        Err(ParseErrorView::RelativeUrlWithoutBase) => if is_fragment(href) {
            Some(ResolutionView::Skip)
        } else {
            None
        },
        Err(other) => Some(ResolutionView::Failed(other)),
    }
}

/// What the parse of the repaired reference settles: the URL, or the drop of
/// the link for want of a base.
pub open spec fn after_second_parse(second: Result<UrlView, ParseErrorView>) -> ResolutionView {
    match second {
        Ok(url) => ResolutionView::Resolved(url),
        Err(_) => ResolutionView::Failed(ParseErrorView::RelativeUrlWithoutBase),
    }
}

/// What becomes of the reference `href` on the page `base`.
pub open spec fn resolution(base: UrlView, href: Seq<char>) -> ResolutionView {
    match after_first_parse(href, parsed_url(href)) {
        Some(settled) => settled,
        None => after_second_parse(parsed_url(repaired(base, href))),
    }
}

/// Whether the reference begins with `#`.
pub fn starts_fragment(href: &str) -> (fragment: bool)
    ensures
        fragment == is_fragment(href@),
{
    !href.is_empty() && href.get_char(0) == '#'
}

/// Decides what the first parse of `href` settles; `None` says that the
/// reference is relative and has to be repaired.
pub fn first_attempt(href: &str, first: Result<Url, ParseError>) -> (settled: Option<Resolution>)
    ensures
        settled_view(settled) == after_first_parse(href@, outcome_view(first)),
{
    match first {
        Ok(url) => Some(Resolution::Resolved(url)),
        Err(ParseError::RelativeUrlWithoutBase) => {
            if starts_fragment(href) {
                Some(Resolution::Skip)
            } else {
                None
            }
        },
        Err(other) => Some(Resolution::Failed(other)),
    }
}

/// Puts the relative reference `href` behind the scheme and the host of
/// `base`.
pub fn repair(base: &Url, href: &str) -> (text: String)
    ensures
        text@ == repaired(base@, href@),
{
    proof {
        reveal_strlit("://");
        reveal_strlit("EMPTY");
    }
    let mut text = base.scheme.clone();
    text.append("://");
    match &base.host_str {
        Some(host) => text.append(host.as_str()),
        None => {
            text.append("EMPTY")
        },
    }
    text.append(href);
    text
}

/// Decides what the parse of the repaired reference settles.
pub fn second_attempt(second: Result<Url, ParseError>) -> (resolution: Resolution)
    ensures
        resolution@ == after_second_parse(outcome_view(second)),
{
    match second {
        Ok(url) => Resolution::Resolved(url),
        Err(_) => Resolution::Failed(ParseError::RelativeUrlWithoutBase),
    }
}

/// Resolves the reference `href`, found on the page `base`.
pub fn resolve(base: &Url, href: &str) -> (resolution: Resolution)
    ensures
        resolution@ == self::resolution(base@, href@),
{
    match first_attempt(href, Url::parse(href)) {
        Some(settled) => settled,
        None => {
            let text = repair(base, href);
            second_attempt(Url::parse(text.as_str()))
        },
    }
}

} // verus!
