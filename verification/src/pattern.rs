//! Regular expressions, compiled and searched by the `regex` crate.

use crate::error::Error;
use vstd::prelude::*;

verus! {

/// Whether `regex::Regex::new` accepts `pattern`.
pub uninterp spec fn regex_compiles(pattern: Seq<char>) -> bool;

/// The text that a compiled expression was made from, as its `as_str` gives
/// it.
pub uninterp spec fn regex_source(re: regex::Regex) -> Seq<char>;

/// What `regex::Regex::captures` finds of `pattern` in `haystack`: nothing, or
/// the text of each group of the first match, the whole match first, with
/// `None` for a group that took no part in the match.
pub uninterp spec fn regex_captures(pattern: Seq<char>, haystack: Seq<char>) -> Option<
    Seq<Option<Seq<char>>>,
>;

/// `regex::Regex`, a compiled expression; nothing is known of what is inside
/// but the text that it was made from.
#[verifier::external_type_specification]
#[verifier::external_body]
pub struct ExRegex(regex::Regex);

/// `regex::Regex::new`: the compiled expression, or nothing where it reports
/// an error because the pattern is not valid or compiles to more than its
/// size limit. Whether it compiles depends on the pattern alone, and the
/// compiled expression keeps the pattern's text.
#[verifier::external_body]
fn compile(pattern: &str) -> (r: Option<regex::Regex>)
    ensures
        r is Some <==> regex_compiles(pattern@),
        r is Some ==> regex_source(r->Some_0) == pattern@,
{
    regex::Regex::new(pattern).ok()
}

/// `regex::Regex::captures`: the groups of the first match in `haystack`,
/// each as an owned string, or nothing where there is no match. What it finds
/// depends on the pattern's text and on the haystack alone.
#[verifier::external_body]
fn first_captures(re: &regex::Regex, haystack: &str) -> (r: Option<Vec<Option<String>>>)
    ensures
        r.deep_view() == regex_captures(regex_source(*re), haystack@),
{
    re.captures(haystack).map(
        |found| found.iter().map(|group| group.map(|m| m.as_str().to_owned())).collect(),
    )
}

/// A compiled regular expression.
#[derive(Debug)]
pub struct Pattern {
    compiled: regex::Regex,
}

impl View for Pattern {
    type V = Seq<char>;

    closed spec fn view(&self) -> Seq<char> {
        regex_source(self.compiled)
    }
}

impl Pattern {
    /// Compiles `pattern`; a pattern that does not compile is a parse error.
    pub fn new(pattern: &str) -> (r: Result<Pattern, Error>)
        ensures
            regex_compiles(pattern@) ==> r is Ok && r->Ok_0@ == pattern@,
            !regex_compiles(pattern@) ==> r is Err && r->Err_0 == Error::Parse,
    {
        match compile(pattern) {
            Some(compiled) => Ok(Pattern { compiled }),
            None => Err(Error::Parse),
        }
    }

    /// The groups of the first match in `haystack`, if there is a match.
    pub fn captures(&self, haystack: &str) -> (r: Option<Vec<Option<String>>>)
        ensures
            r.deep_view() == regex_captures(self@, haystack@),
    {
        first_captures(&self.compiled, haystack)
    }

    /// Whether the expression matches somewhere in `haystack`.
    pub fn is_match(&self, haystack: &str) -> (r: bool)
        ensures
            r == (regex_captures(self@, haystack@) is Some),
    {
        first_captures(&self.compiled, haystack).is_some()
    }
}

} // verus!
