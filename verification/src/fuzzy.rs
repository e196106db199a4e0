use nucleo_matcher::pattern::{AtomKind, CaseMatching, Normalization, Pattern};
use nucleo_matcher::{Config, Matcher, Utf32Str};
use vstd::prelude::*;

verus! {

#[verifier::external_type_specification]
#[verifier::external_body]
pub struct ExMatcher(Matcher);

/// The score that `nucleo_matcher` gives `haystack` for the fuzzy pattern `query`, with the
/// default configuration, smart case matching and smart normalization; `None` when it does not
/// match.
pub uninterp spec fn fuzzy_score(query: Seq<char>, haystack: Seq<char>) -> Option<u32>;

/// The longest query, in characters, that is scored. The matcher adds up a fuzzy atom's score
/// in a `u16` without saturation, at most 26 for each character of the atom and a little more
/// for its first, so it overflows on atoms of a few thousand characters; an atom is never
/// longer than its query.
pub const MAX_QUERY_CHARS: usize = 2000;

/// `nucleo_matcher::Matcher::new(Config::DEFAULT)`.
#[verifier::external_body]
fn default_matcher() -> Matcher {
    Matcher::new(Config::DEFAULT)
}

/// A matcher with the default configuration; this module makes it only with
/// `Config::DEFAULT`, and scoring only sets the case and normalization settings that each
/// pattern atom brings.
pub struct FuzzyMatcher {
    matcher: Matcher,
}

impl FuzzyMatcher {
    /// A matcher with the default configuration.
    pub fn new() -> FuzzyMatcher {
        FuzzyMatcher { matcher: default_matcher() }
    }

    /// `Pattern::score` of `haystack` for the pattern that `Pattern::new` makes of `query`
    /// with smart case matching, smart normalization and fuzzy atoms. The matcher lends its
    /// buffers and its default configuration, so the score is a function of the query and the
    /// haystack. `Matcher::fuzzy_match` asserts that the haystack has at most `u32::MAX`
    /// characters, and the query is held to `MAX_QUERY_CHARS` so that the score of an atom
    /// fits in its `u16`.
    #[verifier::external_body]
    pub(crate) fn score(&mut self, query: &str, haystack: &str) -> (r: Option<u32>)
        requires
            query@.len() <= MAX_QUERY_CHARS,
            haystack@.len() <= u32::MAX,
        ensures
            r == fuzzy_score(query@, haystack@),
    {
        let mut buf = Vec::new();
        Pattern::new(query, CaseMatching::Smart, Normalization::Smart, AtomKind::Fuzzy).score(
            Utf32Str::new(haystack, &mut buf),
            &mut self.matcher,
        )
    }
}

} // verus!
