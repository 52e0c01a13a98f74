//! The pattern-matching abstraction: a compiled regular expression with the
//! query text it was built from, behind trusted wrappers around the regex
//! engine.

use vstd::prelude::*;
use vstd::string::StringSliceAdditionalSpecFns;

verus! {

#[verifier::external_type_specification]
#[verifier::external_body]
/// Declares the compiled regular expression type of the regex crate.
pub struct ExRegex(regex::Regex);

/// Whether the regex engine accepts `pat` as a pattern, under the given
/// case-insensitivity flag. Acceptance depends on the pattern text alone.
pub uninterp spec fn regex_compiles(pat: Seq<char>, ci: bool) -> bool;

/// The byte range of the leftmost-first match of `pat` in `text`, or `None`
/// when the pattern does not match. The result depends on the pattern text,
/// the case flag and the haystack alone.
pub uninterp spec fn regex_find(pat: Seq<char>, ci: bool, text: Seq<char>) -> Option<(int, int)>;

/// A compiled pattern, carrying the query text and case flag it was built
/// from so that contracts can speak of what it matches.
pub struct Pattern {
    /// The compiled engine value.
    pub(crate) re: regex::Regex,
    /// The pattern text this was compiled from. Crate-private so that no
    /// outside constructor can pair a compiled regex with the wrong text,
    /// on which `find_first`'s contract would not hold.
    pub(crate) pat: Ghost<Seq<char>>,
    /// The case-insensitivity flag this was compiled with.
    pub(crate) ci: Ghost<bool>,
}

/// Relies on regex::RegexBuilder: `new(query).case_insensitive(ci).build()`
/// returns `Ok` exactly when the pattern text is a valid pattern.
#[verifier::external_body]
fn regex_build(query: &str, ci: bool) -> (r: Option<regex::Regex>)
    ensures
        r is Some <==> regex_compiles(query@, ci),
{
    regex::RegexBuilder::new(query).case_insensitive(ci).build().ok()
}

/// Compiles a pattern, recording the text and flag it was built from.
pub(crate) fn compile_pattern(query: &str, ci: bool) -> (r: Option<Pattern>)
    ensures
        r is Some <==> regex_compiles(query@, ci),
        (r matches Some(p) ==> p.pat@ == query@ && p.ci@ == ci),
{
    match regex_build(query, ci) {
        Some(re) => Some(Pattern { re, pat: Ghost(query@), ci: Ghost(ci) }),
        None => None,
    }
}

/// Relies on regex::Regex::find: it returns the leftmost-first match as byte
/// offsets into the haystack, with start at most end and end at most the
/// haystack's byte length; an empty pattern matches the empty string at the
/// start of any haystack.
#[verifier::external_body]
pub(crate) fn find_first(p: &Pattern, text: &str) -> (r: Option<(usize, usize)>)
    ensures
        r is Some <==> regex_find(p.pat@, p.ci@, text@) is Some,
        (r matches Some(se) ==> regex_find(p.pat@, p.ci@, text@) == Some(
            (se.0 as int, se.1 as int),
        ) && se.0 <= se.1 && se.1 <= text.spec_bytes().len()),
        p.pat@.len() == 0 ==> r == Some((0usize, 0usize)),
{
    p.re.find(text).map(|m| (m.start(), m.end()))
}

} // verus!
