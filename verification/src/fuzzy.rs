//! Fuzzy matching of search queries, by the skim algorithm of `fuzzy_matcher`.
use vstd::prelude::*;

verus! {

#[verifier::external_type_specification]
#[verifier::external_body]
pub struct ExSkimMatcherV2(fuzzy_matcher::skim::SkimMatcherV2);

/// What `SkimMatcherV2::default().fuzzy_match(choice, pattern)` gives: a
/// score when `pattern` matches `choice`, `None` otherwise.
pub uninterp spec fn skim_score(choice: Seq<char>, pattern: Seq<char>) -> Option<i64>;

/// A skim matcher with the default configuration. Values are made only by
/// [`DefaultSkimMatcher::new`].
pub struct DefaultSkimMatcher {
    matcher: fuzzy_matcher::skim::SkimMatcherV2,
}

impl DefaultSkimMatcher {
    /// `SkimMatcherV2::default()`.
    #[verifier::external_body]
    pub(crate) fn new() -> (r: Self) {
        DefaultSkimMatcher { matcher: fuzzy_matcher::skim::SkimMatcherV2::default() }
    }

    /// `FuzzyMatcher::fuzzy_match` of the default skim matcher.  The contract
    /// claims that the score is a function of the two strings, and, as the
    /// source shows, that an empty pattern scores `Some(0)`.
    #[verifier::external_body]
    pub(crate) fn fuzzy_match(&self, choice: &str, pattern: &str) -> (r: Option<i64>)
        ensures
            r == skim_score(choice@, pattern@),
            pattern@.len() == 0 ==> r == Some(0i64),
    {
        fuzzy_matcher::FuzzyMatcher::fuzzy_match(&self.matcher, choice, pattern)
    }
}

} // verus!
