//! Regular expressions over the text of a URL.

use vstd::prelude::*;

verus! {

/// `regex::Regex`, a compiled regular expression. Nothing is known of what
/// it holds.
#[verifier::external_type_specification]
#[verifier::external_body]
pub struct ExRegex(regex::Regex);

/// A compiled regular expression, together with the text it was compiled
/// from.
///
/// The only way to make one is `Pattern::new`, so `compiled` is always what
/// the regex engine built from `source`.
#[derive(Debug)]
pub struct Pattern {
    source: String,
    compiled: regex::Regex,
}

impl View for Pattern {
    type V = Seq<char>;

    /// The text of the pattern.
    closed spec fn view(&self) -> Seq<char> {
        self.source@
    }
}

/// Whether the regular expression that is written `pattern` matches anywhere
/// in `text`. Only meant for a `pattern` that compiles.
pub uninterp spec fn regex_matches(pattern: Seq<char>, text: Seq<char>) -> bool;

/// `regex::Regex::new`. A pattern that comes back holds the text it was made
/// from. When one comes back is left open: besides the syntax the engine's
/// size limit decides, which counts bytes of memory and so is not the same on
/// every machine.
#[verifier::external_body]
fn compile(source: &str) -> (pattern: Option<Pattern>)
    ensures
        pattern is Some ==> pattern->0@ == source@,
{
    match regex::Regex::new(source) {
        Ok(compiled) => Some(Pattern { source: source.to_string(), compiled }),
        Err(_) => None,
    }
}

/// `regex::Regex::is_match`, on the regex compiled from the pattern's text:
/// the answer depends on that text and on the haystack alone.
#[verifier::external_body]
fn is_match_of(pattern: &Pattern, text: &str) -> (found: bool)
    ensures
        found == regex_matches(pattern@, text@),
{
    pattern.compiled.is_match(text)
}

impl Pattern {
    /// Compiles `source`, and nothing but `source`. Returns `None` when the
    /// regex engine refuses it.
    ///
    /// Which texts the engine refuses is the engine's matter, and not one of
    /// the text alone: a text of sound syntax is refused where the compiled
    /// form would go over a limit that is counted in bytes of memory, and
    /// that count follows the width of the machine's pointers. So nothing is
    /// promised of when a pattern comes back, only of the pattern that does.
    pub fn new(source: &str) -> (pattern: Option<Pattern>)
        ensures
            pattern is Some ==> pattern->0@ == source@,
    {
        compile(source)
    }

    /// The text of the pattern.
    pub fn as_str(&self) -> (source: &str)
        ensures
            source@ == self@,
    {
        self.source.as_str()
    }

    /// Whether the pattern matches anywhere in `text`.
    pub fn is_match(&self, text: &str) -> (found: bool)
        ensures
            found == regex_matches(self@, text@),
    {
        is_match_of(self, text)
    }
}

/// The texts of a list of patterns.
pub open spec fn patterns_view(patterns: Seq<Pattern>) -> Seq<Seq<char>> {
    patterns.map_values(|pattern: Pattern| pattern@)
}

/// Whether one of the first `n` of the patterns written `patterns` matches
/// `text`.
pub open spec fn any_of_first_matches(patterns: Seq<Seq<char>>, n: int, text: Seq<char>) -> bool {
    exists|i: int| 0 <= i < n && #[trigger] regex_matches(patterns[i], text)
}

/// Whether one of the patterns written `patterns` matches `text`.
pub open spec fn any_matches(patterns: Seq<Seq<char>>, text: Seq<char>) -> bool {
    any_of_first_matches(patterns, patterns.len() as int, text)
}

/// Whether one of `patterns` matches anywhere in `text`.
pub fn matches_any(patterns: &Vec<Pattern>, text: &str) -> (found: bool)
    ensures
        found == any_matches(patterns_view(patterns@), text@),
{
    let mut i: usize = 0;
    while i < patterns.len()
        invariant
            i <= patterns.len(),
            !any_of_first_matches(patterns_view(patterns@), i as int, text@),
        decreases patterns.len() - i,
    {
        if patterns[i].is_match(text) {
            assert(regex_matches(patterns_view(patterns@)[i as int], text@));
            return true;
        }
        i += 1;
    }
    false
}

} // verus!
