use grep::matcher::Matcher;
use grep::regex::{RegexMatcher, RegexMatcherBuilder};
use vstd::prelude::*;

use crate::request::ConfigError;

verus! {

#[verifier::external_type_specification]
#[verifier::external_body]
pub struct ExRegexMatcher(RegexMatcher);

/// Whether the regex engine accepts `pattern` with the case-insensitive and
/// multi-line flags set as given.
pub uninterp spec fn pattern_compiles(pattern: Seq<char>, case_insensitive: bool, multi_line: bool) -> bool;

/// The first match span that the regex engine reports for `pattern`, under
/// the two flags, in `haystack`.
pub uninterp spec fn first_match(
    pattern: Seq<char>,
    case_insensitive: bool,
    multi_line: bool,
    haystack: Seq<u8>,
) -> Option<(usize, usize)>;

/// Relies on grep-regex's `RegexMatcherBuilder::build` with the case-insensitive
/// and multi-line flags set: whether it succeeds depends on the pattern and the
/// two flags alone.
#[verifier::external_body]
fn build_regex(pattern: &str, case_insensitive: bool, multi_line: bool) -> (r: Result<
    RegexMatcher,
    String,
>)
    ensures
        r is Ok <==> pattern_compiles(pattern@, case_insensitive, multi_line),
{
    RegexMatcherBuilder::new().case_insensitive(case_insensitive).multi_line(multi_line).build(
        pattern,
    ).map_err(|e| e.to_string())
}

/// A compiled pattern together with the settings it was compiled from.
pub struct PatternMatcher {
    pub(crate) regex: RegexMatcher,
    pattern: String,
    case_insensitive: bool,
    multi_line: bool,
}

impl PatternMatcher {
    pub closed spec fn pattern(&self) -> Seq<char> {
        self.pattern@
    }

    pub closed spec fn case_insensitive(&self) -> bool {
        self.case_insensitive
    }

    pub closed spec fn multi_line(&self) -> bool {
        self.multi_line
    }

    /// The first match span of this matcher in `haystack`.
    pub open spec fn spec_find(&self, haystack: Seq<u8>) -> Option<(usize, usize)> {
        first_match(self.pattern(), self.case_insensitive(), self.multi_line(), haystack)
    }

    /// Compiles `pattern`; fails exactly when the regex engine rejects it.
    pub fn compile(pattern: &str, case_insensitive: bool, multi_line: bool) -> (r: Result<
        PatternMatcher,
        ConfigError,
    >)
        ensures
            r is Ok <==> pattern_compiles(pattern@, case_insensitive, multi_line),
            r is Err ==> r->Err_0 is InvalidPattern,
            r matches Ok(m) ==> m.pattern() == pattern@ && m.case_insensitive() == case_insensitive
                && m.multi_line() == multi_line,
    {
        match build_regex(pattern, case_insensitive, multi_line) {
            Ok(regex) => Ok(
                PatternMatcher {
                    regex,
                    pattern: pattern.to_owned(),
                    case_insensitive,
                    multi_line,
                },
            ),
            Err(msg) => Err(ConfigError::InvalidPattern(msg)),
        }
    }

    /// The first match span in `haystack`, as byte offsets into it.
    pub fn find(&self, haystack: &[u8]) -> (r: Option<(usize, usize)>)
        ensures
            r == self.spec_find(haystack@),
            r matches Some((s, e)) ==> s <= e <= haystack@.len(),
    {
        find_first(self, haystack)
    }
}

/// Relies on grep-matcher's `Matcher::find` as implemented by grep-regex's
/// `RegexMatcher`: the leftmost match in `haystack`, whose span lies within it
/// (`Match::new` panics unless `start <= end`).
#[verifier::external_body]
fn find_first(m: &PatternMatcher, haystack: &[u8]) -> (r: Option<(usize, usize)>)
    ensures
        r == first_match(m.pattern@, m.case_insensitive, m.multi_line, haystack@),
        r matches Some((s, e)) ==> s <= e <= haystack@.len(),
{
    match m.regex.find(haystack) {
        Ok(found) => found.map(|x| (x.start(), x.end())),
        Err(_) => None,
    }
}

} // verus!
