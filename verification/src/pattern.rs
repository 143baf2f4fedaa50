//! Selecting reads by their identifier with regular expressions.
//!
//! Compiling and matching are done by the `regex` crate. What it answers is
//! not proved here: the contracts below name its answers and say of them only
//! what its documentation says. An expression answers by its pattern alone
//! only when it was compiled with the options that `new` sets, so the two
//! selectors keep their compiled value to themselves and are made by their
//! own `new` only.

use crate::error::FastqError;
use crate::record::Record;
use vstd::prelude::*;
use vstd::utf8::encode_utf8;

verus! {

/// A compiled regular expression of the `regex` crate.
#[verifier::external_type_specification]
#[verifier::external_body]
pub struct ExRegex(regex::Regex);

/// A compiled set of regular expressions over bytes of the `regex` crate.
#[verifier::external_type_specification]
#[verifier::external_body]
pub struct ExRegexSet(regex::bytes::RegexSet);

/// The error of the `regex` crate for a pattern that does not compile.
#[verifier::external_type_specification]
#[verifier::external_body]
pub struct ExRegexError(regex::Error);

/// Whether `regex::Regex::new` accepts the pattern.
pub uninterp spec fn pattern_compiles(pattern: Seq<char>) -> bool;

/// The pattern that a compiled expression was made from, which is what
/// `regex::Regex::as_str` returns.
pub uninterp spec fn pattern_of(re: regex::Regex) -> Seq<char>;

/// Whether the expression was made by `regex::Regex::new`, and so with the
/// options that `new` sets. A builder can make an expression with the same
/// pattern and other options, which matches other texts.
pub uninterp spec fn made_plain(re: regex::Regex) -> bool;

/// Whether an expression that `regex::Regex::new` made from the pattern finds
/// a match anywhere in the text, as `regex::Regex::is_match` tells.
pub uninterp spec fn pattern_matches(pattern: Seq<char>, text: Seq<char>) -> bool;

/// Whether `regex::bytes::RegexSet::new` accepts the list of patterns.
pub uninterp spec fn pattern_set_compiles(patterns: Seq<Seq<char>>) -> bool;

/// The patterns that a compiled set holds, in their order, which is what
/// `regex::bytes::RegexSet::patterns` returns.
pub uninterp spec fn patterns_of(set: regex::bytes::RegexSet) -> Seq<Seq<char>>;

/// Whether the set was made by `regex::bytes::RegexSet::new`, and so with the
/// options that `new` sets.
pub uninterp spec fn set_made_plain(set: regex::bytes::RegexSet) -> bool;

/// Whether the pattern, as one expression of a set that
/// `regex::bytes::RegexSet::new` made, matches anywhere in the bytes.
pub uninterp spec fn byte_pattern_matches(pattern: Seq<char>, haystack: Seq<u8>) -> bool;

/// Some pattern of the list matches the bytes.
pub open spec fn any_matches(patterns: Seq<Seq<char>>, haystack: Seq<u8>) -> bool {
    exists|i: int| 0 <= i < patterns.len() && byte_pattern_matches(#[trigger] patterns[i], haystack)
}

/// Calls `regex::Regex::new`. Whether a pattern compiles depends on the
/// pattern alone; a compiled expression keeps the pattern it was made from,
/// and has the options that `new` sets.
#[verifier::external_body]
fn compile(pattern: &str) -> (r: Result<regex::Regex, regex::Error>)
    ensures
        r.is_ok() == pattern_compiles(pattern@),
        r matches Ok(re) ==> pattern_of(re) == pattern@ && made_plain(re),
{
    regex::Regex::new(pattern)
}

/// Calls `regex::Regex::as_str`, which returns the pattern as it was given.
#[verifier::external_body]
fn pattern_text(re: &regex::Regex) -> (text: &str)
    ensures
        text@ == pattern_of(*re),
{
    re.as_str()
}

/// Calls `regex::Regex::is_match`: true if and only if the expression matches
/// somewhere in the text. For an expression that `regex::Regex::new` made
/// this depends on its pattern and the text alone.
#[verifier::external_body]
fn is_match(re: &regex::Regex, text: &str) -> (found: bool)
    requires
        made_plain(*re),
    ensures
        found == pattern_matches(pattern_of(*re), text@),
{
    re.is_match(text)
}

/// Calls `regex::bytes::RegexSet::new`. Whether a list of patterns compiles
/// depends on the list alone; a compiled set keeps its patterns in order, and
/// has the options that `new` sets.
#[verifier::external_body]
fn compile_set(patterns: &Vec<String>) -> (r: Result<regex::bytes::RegexSet, regex::Error>)
    ensures
        r.is_ok() == pattern_set_compiles(patterns.deep_view()),
        r matches Ok(set) ==> patterns_of(set) == patterns.deep_view() && set_made_plain(set),
{
    regex::bytes::RegexSet::new(patterns)
}

/// Calls `regex::bytes::RegexSet::patterns`, which returns the patterns as
/// they were given, in their order.
#[verifier::external_body]
fn set_patterns(set: &regex::bytes::RegexSet) -> (patterns: &[String])
    ensures
        patterns.deep_view() == patterns_of(*set),
{
    set.patterns()
}

/// Calls `regex::bytes::RegexSet::is_match`: true if and only if one of the
/// expressions in the set matches the bytes. For a set that
/// `regex::bytes::RegexSet::new` made, whether one expression matches depends
/// on its pattern and the bytes alone.
#[verifier::external_body]
fn set_is_match(set: &regex::bytes::RegexSet, haystack: &[u8]) -> (found: bool)
    requires
        set_made_plain(*set),
    ensures
        found == (exists|i: int|
            0 <= i < patterns_of(*set).len() && byte_pattern_matches(
                #[trigger] patterns_of(*set)[i],
                haystack@,
            )),
{
    set.is_match(haystack)
}

/// Selects the reads whose identifier matches one regular expression.
pub struct IdPattern {
    regex: regex::Regex,
}

impl IdPattern {
    /// The pattern as it was given.
    pub closed spec fn source(&self) -> Seq<char> {
        pattern_of(self.regex)
    }

    /// The expression was compiled by [`IdPattern::new`], with no option
    /// changed.
    pub closed spec fn wf(&self) -> bool {
        made_plain(self.regex)
    }

    /// Compiles the pattern; one that is no regular expression is refused.
    pub fn new(pattern: &str) -> (r: Result<IdPattern, FastqError>)
        ensures
            r.is_ok() == pattern_compiles(pattern@),
            r matches Ok(p) ==> p.wf() && p.source() == pattern@,
            r matches Err(e) ==> e == FastqError::InvalidPattern,
    {
        match compile(pattern) {
            Ok(regex) => Ok(IdPattern { regex }),
            Err(_) => Err(FastqError::InvalidPattern),
        }
    }

    /// The pattern as it was given.
    pub fn pattern(&self) -> (text: &str)
        ensures
            text@ == self.source(),
    {
        pattern_text(&self.regex)
    }

    /// Whether the identifier of the record matches the pattern.
    pub fn selects(&self, record: &Record) -> (keep: bool)
        requires
            self.wf(),
        ensures
            keep == pattern_matches(self.source(), record@.id),
    {
        is_match(&self.regex, record.id.as_str())
    }
}

/// Selects the reads whose identifier matches any of a list of regular
/// expressions.
pub struct IdPatternSet {
    set: regex::bytes::RegexSet,
}

impl IdPatternSet {
    /// The patterns as they were given, in their order.
    pub closed spec fn sources(&self) -> Seq<Seq<char>> {
        patterns_of(self.set)
    }

    /// The set was compiled by [`IdPatternSet::new`], with no option changed.
    pub closed spec fn wf(&self) -> bool {
        set_made_plain(self.set)
    }

    /// Compiles the patterns; a list that the `regex` crate does not accept
    /// as a whole is refused.
    pub fn new(patterns: &Vec<String>) -> (r: Result<IdPatternSet, FastqError>)
        ensures
            r.is_ok() == pattern_set_compiles(patterns.deep_view()),
            r matches Ok(p) ==> p.wf() && p.sources() == patterns.deep_view(),
            r matches Err(e) ==> e == FastqError::InvalidPattern,
    {
        match compile_set(patterns) {
            Ok(set) => Ok(IdPatternSet { set }),
            Err(_) => Err(FastqError::InvalidPattern),
        }
    }

    /// The patterns as they were given, in their order.
    pub fn patterns(&self) -> (patterns: &[String])
        ensures
            patterns.deep_view() == self.sources(),
    {
        set_patterns(&self.set)
    }

    /// Whether the identifier of the record, as bytes, matches at least one
    /// of the patterns.
    pub fn selects(&self, record: &Record) -> (keep: bool)
        requires
            self.wf(),
        ensures
            keep == any_matches(self.sources(), encode_utf8(record@.id)),
    {
        set_is_match(&self.set, record.id.as_str().as_bytes())
    }
}

} // verus!
