//! Parsed pages and the selectors that pick elements out of them.

use crate::weburl::text_view;
use vstd::prelude::*;
use vstd::string::*;
use vstd::utf8::encode_utf8;

verus! {

/// `scraper::Selector`, a compiled selector group. Nothing is known of what
/// it holds.
#[verifier::external_type_specification]
#[verifier::external_body]
pub struct ExSelector(scraper::Selector);

/// `scraper::Html`, a parsed document. Nothing is known of what it holds.
#[verifier::external_type_specification]
#[verifier::external_body]
pub struct ExHtml(scraper::Html);

/// A compiled CSS selector group, together with the text it was compiled
/// from.
///
/// The only way to make one is `StrSelector::parse`, so `compiled` is always
/// what the selector parser built from `source`.
#[derive(Debug)]
pub struct StrSelector {
    source: String,
    compiled: scraper::Selector,
}

impl View for StrSelector {
    type V = Seq<char>;

    /// The text of the selector.
    closed spec fn view(&self) -> Seq<char> {
        self.source@
    }
}

/// A parsed page, together with the text it was parsed from.
///
/// The only way to make one is `Document::parse`, so `parsed` is always the
/// tree that the HTML parser built from `body`.
pub struct Document {
    body: String,
    parsed: scraper::Html,
}

impl View for Document {
    type V = Seq<char>;

    /// The text of the page.
    closed spec fn view(&self) -> Seq<char> {
        self.body@
    }
}

/// The longest body, in bytes, that is handed to the HTML parser. The parser
/// keeps lengths in 32 bits and may write more than it reads, so it gets no
/// text that comes near that limit.
pub const MAX_BODY_BYTES: usize = 0x4000_0000;

/// The longest selector, in bytes, that is handed to the selector parser,
/// which counts lines in 32 bits.
pub const MAX_SELECTOR_BYTES: usize = 0x10_0000;

/// The body is short enough for the HTML parser.
pub open spec fn body_fits(body: Seq<char>) -> bool {
    encode_utf8(body).len() <= MAX_BODY_BYTES
}

/// The selector is short enough for the selector parser.
pub open spec fn selector_fits(css: Seq<char>) -> bool {
    encode_utf8(css).len() <= MAX_SELECTOR_BYTES
}

/// Whether `css` is a selector group that the selector parser accepts.
pub uninterp spec fn selector_parses(css: Seq<char>) -> bool;

/// Whether the selector written `css` picks any element of the page written
/// `body`. Only meant for a `css` that parses.
pub uninterp spec fn selects_any(body: Seq<char>, css: Seq<char>) -> bool;

/// For each element that the selector written `css` picks out of the page
/// written `body`, in the order in which the page yields them: the value of
/// its attribute `name`, if it has that attribute. Only meant for a `css`
/// that parses.
pub uninterp spec fn selected_attrs(body: Seq<char>, css: Seq<char>, name: Seq<char>) -> Seq<
    Option<Seq<char>>,
>;

/// The view of a list of texts that may be absent.
pub open spec fn texts_view(texts: Seq<Option<String>>) -> Seq<Option<Seq<char>>> {
    texts.map_values(|text: Option<String>| text_view(text))
}

/// `scraper::Selector::parse`, on a text of at most `MAX_SELECTOR_BYTES`
/// bytes: whether it accepts the text depends on the text alone, and the
/// selector that comes back holds the text it was made from.
#[verifier::external_body]
fn compile_selector(css: &str) -> (selector: Option<StrSelector>)
    requires
        selector_fits(css@),
    ensures
        selector is Some <==> selector_parses(css@),
        selector is Some ==> selector->0@ == css@,
{
    match scraper::Selector::parse(css) {
        Ok(compiled) => Some(StrSelector { source: css.to_string(), compiled }),
        Err(_) => None,
    }
}

/// `scraper::Html::parse_document`, on a text of at most `MAX_BODY_BYTES`
/// bytes; it accepts every such text. The document that comes back holds the
/// text it was made from.
#[verifier::external_body]
fn parse_document(body: &str) -> (document: Document)
    requires
        body_fits(body@),
    ensures
        document@ == body@,
{
    Document { body: body.to_string(), parsed: scraper::Html::parse_document(body) }
}

/// `scraper::Html::select`, asked for its first element only: whether there
/// is one depends on the page's text and the selector's text alone.
#[verifier::external_body]
fn any_selected(document: &Document, selector: &StrSelector) -> (found: bool)
    ensures
        found == selects_any(document@, selector@),
{
    document.parsed.select(&selector.compiled).next().is_some()
}

/// `scraper::Html::select`, and `scraper::node::Element::attr` on each element
/// that it yields: the list depends on the page's text, the selector's text
/// and the attribute's name alone.
#[verifier::external_body]
fn select_attrs(document: &Document, selector: &StrSelector, name: &str) -> (values: Vec<
    Option<String>,
>)
    ensures
        texts_view(values@) == selected_attrs(document@, selector@, name@),
{
    document.parsed.select(&selector.compiled).map(
        |element| element.value().attr(name).map(String::from),
    ).collect()
}

impl StrSelector {
    /// Compiles a CSS selector group. Returns `None` when `css` is none, or
    /// is longer than `MAX_SELECTOR_BYTES` bytes.
    pub fn parse(css: &str) -> (selector: Option<StrSelector>)
        ensures
            selector is Some <==> selector_fits(css@) && selector_parses(css@),
            selector is Some ==> selector->0@ == css@,
    {
        if css.as_bytes().len() <= MAX_SELECTOR_BYTES {
            compile_selector(css)
        } else {
            None
        }
    }

    /// The text of the selector.
    pub fn as_str(&self) -> (css: &str)
        ensures
            css@ == self@,
    {
        self.source.as_str()
    }
}

impl Document {
    /// Parses the body of a page. Every text of at most `MAX_BODY_BYTES`
    /// bytes is a page.
    pub fn parse(body: &str) -> (document: Document)
        requires
            body_fits(body@),
        ensures
            document@ == body@,
    {
        parse_document(body)
    }

    /// Whether `selector` picks any element of the page.
    pub fn matches(&self, selector: &StrSelector) -> (found: bool)
        ensures
            found == selects_any(self@, selector@),
    {
        any_selected(self, selector)
    }

    /// The value of the attribute `name` of each element that `selector`
    /// picks, or `None` for an element without it.
    pub fn select_attrs(&self, selector: &StrSelector, name: &str) -> (values: Vec<Option<String>>)
        ensures
            texts_view(values@) == selected_attrs(self@, selector@, name@),
    {
        select_attrs(self, selector, name)
    }
}

} // verus!
