//! Regular-expression patterns, compiled and matched by the `regex` crate.
use vstd::prelude::*;

verus! {

#[verifier::external_type_specification]
#[verifier::external_body]
pub struct ExRegex(regex::Regex);

/// What `regex::Regex::new` gives for a pattern: `None` when the pattern
/// compiles, and otherwise the text (`Display`) of the error it returns.
pub uninterp spec fn regex_compile_error(pattern: Seq<char>) -> Option<Seq<char>>;

/// What `regex::Regex::is_match` answers for the regex compiled from `pattern`
/// and the haystack `text`.
pub uninterp spec fn regex_matches(pattern: Seq<char>, text: Seq<char>) -> bool;

/// A regular expression together with the pattern it was compiled from.
/// Values are made only by [`compile_regex`], so `regex` is always the
/// compilation of `pattern`.
pub struct CompiledRegex {
    pattern: String,
    regex: regex::Regex,
}

impl CompiledRegex {
    /// The pattern this regex was compiled from.
    pub closed spec fn source(&self) -> Seq<char> {
        self.pattern@
    }

    /// The pattern this regex was compiled from.
    pub fn pattern(&self) -> (r: &String)
        ensures
            r@ == self.source(),
    {
        &self.pattern
    }
}

/// Compiles `pattern` with `regex::Regex::new`.  The contract claims that the
/// result is `Ok` exactly for the patterns that `regex` accepts, and that an
/// error carries the `Display` text of `regex`'s error.
#[verifier::external_body]
pub(crate) fn compile_regex(pattern: &str) -> (r: Result<CompiledRegex, String>)
    ensures
        match r {
            Ok(c) => regex_compile_error(pattern@) is None && c.source() == pattern@,
            Err(e) => regex_compile_error(pattern@) == Some(e@),
        },
{
    match regex::Regex::new(pattern) {
        Ok(regex) => Ok(CompiledRegex { pattern: pattern.to_string(), regex }),
        Err(e) => Err(e.to_string()),
    }
}

/// `regex::Regex::is_match` of a compiled pattern on `text`.  The contract
/// claims that the answer is a function of the pattern and the text.
#[verifier::external_body]
pub(crate) fn is_match(re: &CompiledRegex, text: &str) -> (r: bool)
    ensures
        r == regex_matches(re.source(), text@),
{
    re.regex.is_match(text)
}

} // verus!
