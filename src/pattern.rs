//! Compiled search patterns: a line pattern over raw line bytes (grep's
//! regex matcher) and a field pattern over metadata text (the regex crate).
use crate::error::VaultError;
use vstd::prelude::*;

verus! {

#[verifier::external_type_specification]
#[verifier::external_body]
pub struct ExRegexMatcher(grep::regex::RegexMatcher);

#[verifier::external_type_specification]
#[verifier::external_body]
pub struct ExGrepRegexError(grep::regex::Error);

#[verifier::external_type_specification]
#[verifier::external_body]
pub struct ExRegex(regex::Regex);

#[verifier::external_type_specification]
#[verifier::external_body]
pub struct ExRegexError(regex::Error);

/// Whether grep's regex matcher accepts the pattern.
pub uninterp spec fn line_pattern_valid(p: Seq<char>) -> bool;

/// Whether the line pattern `p` matches the bytes of `line`.
pub uninterp spec fn line_matches(p: Seq<char>, line: Seq<char>) -> bool;

/// Whether the regex crate accepts the pattern.
pub uninterp spec fn field_pattern_valid(p: Seq<char>) -> bool;

/// Whether the field pattern `p` matches somewhere in `text`.
pub uninterp spec fn field_matches(p: Seq<char>, text: Seq<char>) -> bool;

/// Relies on `grep_regex::RegexMatcher::new`: a matcher, or the error for a
/// pattern that does not compile; which of the two depends on the pattern alone.
#[verifier::external_body]
fn compile_line_matcher(p: &str) -> (r: Result<grep::regex::RegexMatcher, grep::regex::Error>)
    ensures
        r is Ok == line_pattern_valid(p@),
{
    grep::regex::RegexMatcher::new(p)
}

/// Relies on `regex::Regex::new`: a regex, or the error for a pattern that
/// does not compile; which of the two depends on the pattern alone.
#[verifier::external_body]
fn compile_field_regex(p: &str) -> (r: Result<regex::Regex, regex::Error>)
    ensures
        r is Ok == field_pattern_valid(p@),
{
    regex::Regex::new(p)
}

/// A compiled line pattern, with the text it was compiled from.
pub struct LinePattern {
    source: String,
    matcher: grep::regex::RegexMatcher,
}

/// A compiled field pattern, with the text it was compiled from.
pub struct FieldPattern {
    source: String,
    regex: regex::Regex,
}

impl LinePattern {
    /// The pattern text.
    pub closed spec fn source(&self) -> Seq<char> {
        self.source@
    }

    /// Compiles `p`, failing with `InvalidPattern` exactly when it is invalid.
    pub fn new(p: &str) -> (r: Result<LinePattern, VaultError>)
        ensures
            match r {
                Ok(lp) => line_pattern_valid(p@) && lp.source() == p@,
                Err(e) => !line_pattern_valid(p@) && e is InvalidPattern
                    && e->InvalidPattern_pattern@ == p@,
            },
    {
        match compile_line_matcher(p) {
            Ok(matcher) => Ok(LinePattern { source: p.to_owned(), matcher }),
            Err(_) => Err(VaultError::InvalidPattern { pattern: p.to_owned() }),
        }
    }

    /// Relies on `grep_matcher::Matcher::is_match` of the matcher compiled from
    /// `source`, on the line's UTF-8 bytes; its error type is uninhabited.
    #[verifier::external_body]
    pub(crate) fn is_match(&self, line: &str) -> (r: bool)
        ensures
            r == line_matches(self.source(), line@),
    {
        grep::matcher::Matcher::is_match(&self.matcher, line.as_bytes()).unwrap_or(false)
    }
}

impl FieldPattern {
    /// The pattern text.
    pub closed spec fn source(&self) -> Seq<char> {
        self.source@
    }

    /// Compiles `p`, failing with `InvalidPattern` exactly when it is invalid.
    pub fn new(p: &str) -> (r: Result<FieldPattern, VaultError>)
        ensures
            match r {
                Ok(fp) => field_pattern_valid(p@) && fp.source() == p@,
                Err(e) => !field_pattern_valid(p@) && e is InvalidPattern
                    && e->InvalidPattern_pattern@ == p@,
            },
    {
        match compile_field_regex(p) {
            Ok(regex) => Ok(FieldPattern { source: p.to_owned(), regex }),
            Err(_) => Err(VaultError::InvalidPattern { pattern: p.to_owned() }),
        }
    }

    /// Relies on `regex::Regex::is_match` of the regex compiled from `source`.
    #[verifier::external_body]
    pub(crate) fn is_match(&self, text: &str) -> (r: bool)
        ensures
            r == field_matches(self.source(), text@),
    {
        self.regex.is_match(text)
    }
}

} // verus!
