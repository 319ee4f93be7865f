//! Regular expressions, compiled by the `regex` crate and kept together with their source.
use regex::Regex;
use vstd::prelude::*;

verus! {

/// A compiled regular expression of the `regex` crate.
#[verifier::external_type_specification]
#[verifier::external_body]
pub struct ExRegex(regex::Regex);

/// Whether `regex::Regex::new` accepts `pattern`.
pub uninterp spec fn regex_compiles(pattern: Seq<char>) -> bool;

/// Whether the regex compiled from `pattern` matches somewhere in `text`.
pub uninterp spec fn regex_is_match(pattern: Seq<char>, text: Seq<char>) -> bool;

/// A regular expression together with the source it was compiled from.
///
/// The compiled regex can only be obtained through `compile_pattern`, so it is always the
/// compilation of `source`.
#[derive(Debug)]
pub struct CompiledPattern {
    source: String,
    regex: Regex,
}

impl View for CompiledPattern {
    type V = Seq<char>;

    closed spec fn view(&self) -> Seq<char> {
        self.source@
    }
}

/// Compiles `pattern` with `regex::Regex::new`.
///
/// Trusted: the result is present exactly when the crate accepts the pattern (named
/// `regex_compiles`), and then it carries `pattern` as its source.
#[verifier::external_body]
pub(crate) fn compile_pattern(pattern: &str) -> (r: Option<CompiledPattern>)
    ensures
        r is Some == regex_compiles(pattern@),
        r matches Some(p) ==> p@ == pattern@,
{
    match Regex::new(pattern) {
        Ok(regex) => Some(CompiledPattern { source: pattern.to_string(), regex }),
        Err(_) => None,
    }
}

/// Matches `text` against the compiled pattern with `regex::Regex::is_match`.
///
/// Trusted: the answer is named `regex_is_match` of the pattern's source and the text.
#[verifier::external_body]
pub(crate) fn pattern_is_match(p: &CompiledPattern, text: &str) -> (b: bool)
    ensures
        b == regex_is_match(p@, text@),
{
    p.regex.is_match(text)
}

impl CompiledPattern {
    /// The source the pattern was compiled from.
    pub fn as_str(&self) -> (s: &str)
        ensures
            s@ == self@,
    {
        self.source.as_str()
    }
}

} // verus!

verus! {

/// The groups that the regex compiled from `pattern` captures in its first match in `text`,
/// group 0 being the whole match; `None` when it does not match.
pub uninterp spec fn regex_captures(pattern: Seq<char>, text: Seq<char>) -> Option<Seq<Option<Seq<char>>>>;

/// The groups captured by `regex::Regex::captures`, each as the text it matched.
///
/// Trusted: the groups are named `regex_captures` of the pattern's source and the text.
#[verifier::external_body]
pub(crate) fn pattern_captures(p: &CompiledPattern, text: &str) -> (r: Option<Vec<Option<String>>>)
    ensures
        match r {
            Some(c) => regex_captures(p@, text@) == Some(
                c@.map_values(|x: Option<String>| match x {
                    Some(s) => Some(s@),
                    None => None,
                }),
            ),
            None => regex_captures(p@, text@) is None,
        },
{
    p.regex.captures(text).map(|c| c.iter().map(|m| m.map(|m| m.as_str().to_owned())).collect())
}

/// What `regex::Regex::replace_all` leaves of `text` when each match of the regex compiled
/// from `pattern` is replaced by nothing.
pub uninterp spec fn regex_erased(pattern: Seq<char>, text: Seq<char>) -> Seq<char>;

/// `regex::Regex::replace_all` with an empty replacement.
///
/// Trusted: the text left is named `regex_erased` of the pattern's source and the text.
#[verifier::external_body]
pub(crate) fn erase_matches(p: &CompiledPattern, text: &str) -> (r: String)
    ensures
        r@ == regex_erased(p@, text@),
{
    p.regex.replace_all(text, "").into_owned()
}

impl CompiledPattern {
    /// Compiles `pattern`, if the `regex` crate accepts it.
    pub fn new(pattern: &str) -> (r: Option<CompiledPattern>)
        ensures
            r is Some == regex_compiles(pattern@),
            r matches Some(p) ==> p@ == pattern@,
    {
        compile_pattern(pattern)
    }
}

} // verus!
