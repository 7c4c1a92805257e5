//! The pattern engine behind the term matchers. Everything in this file is
//! taken on trust from the `regex` crate: compiling a pattern, and reading the
//! capture groups of its matches in a text.

use vstd::prelude::*;
use regex::Regex;

verus! {

/// A compiled pattern of the `regex` crate. Opaque here.
#[verifier::external_type_specification]
#[verifier::external_body]
pub struct ExRegex(regex::Regex);

/// The error that compiling a pattern can give. Opaque here.
#[verifier::external_type_specification]
#[verifier::external_body]
pub struct ExRegexError(regex::Error);

/// The pattern text that a compiled pattern was made from, as
/// `Regex::as_str` returns it.
pub uninterp spec fn regex_source(re: Regex) -> Seq<char>;

/// Whether `Regex::new` accepts a pattern text.
pub uninterp spec fn pattern_compiles(pattern: Seq<char>) -> bool;

/// What `Regex::captures` followed by `Captures::get(group)` gives for the
/// leftmost match of the compiled pattern `re` in `text`: the text of that
/// group, or nothing where the pattern has no match or the group took no
/// part in it.
pub uninterp spec fn first_capture(re: Regex, text: Seq<char>, group: nat) -> Option<Seq<char>>;

/// What `Regex::captures_iter` gives for the compiled pattern `re` in
/// `text`: for each of the successive non-overlapping matches, in the order
/// of the text, the text of the asked group, or nothing where that group
/// took no part in the match.
pub uninterp spec fn each_capture(re: Regex, text: Seq<char>, group: nat) -> Seq<
    Option<Seq<char>>,
>;

/// The view of an optional string.
pub open spec fn opt_text(o: Option<String>) -> Option<Seq<char>> {
    match o {
        Some(s) => Some(s@),
        None => None,
    }
}

/// The views of a list of optional strings, in order.
pub open spec fn opt_texts(v: Seq<Option<String>>) -> Seq<Option<Seq<char>>> {
    Seq::new(v.len(), |i: int| opt_text(v[i]))
}

/// `Regex::new`. Trusted: whether a pattern compiles depends on its text
/// alone, and a pattern that compiles remembers that text.
#[verifier::external_body]
pub(crate) fn compile(pattern: &str) -> (r: Result<Regex, regex::Error>)
    ensures
        r is Ok <==> pattern_compiles(pattern@),
        r matches Ok(re) ==> regex_source(re) == pattern@,
{
    Regex::new(pattern)
}

/// `Regex::captures` and `Captures::get`. Trusted: the result is the text of
/// the asked group in the leftmost match, a function of the compiled
/// pattern, the text and the group number. `Captures::get` answers an
/// unknown group number with nothing, so every `group` is admitted.
#[verifier::external_body]
pub(crate) fn capture_group(re: &Regex, text: &str, group: usize) -> (r: Option<String>)
    ensures
        opt_text(r) == first_capture(*re, text@, group as nat),
{
    match re.captures(text) {
        Some(found) => match found.get(group) {
            Some(m) => Some(m.as_str().to_string()),
            None => None,
        },
        None => None,
    }
}

/// `Regex::captures_iter`, reading `Captures::get(group)` of each match.
/// Trusted: one entry for each match, in the order of the text, a function
/// of the compiled pattern, the text and the group number.
#[verifier::external_body]
pub(crate) fn capture_each(re: &Regex, text: &str, group: usize) -> (r: Vec<Option<String>>)
    ensures
        opt_texts(r@) == each_capture(*re, text@, group as nat),
{
    let mut found: Vec<Option<String>> = Vec::new();
    for one in re.captures_iter(text) {
        found.push(one.get(group).map(|m| m.as_str().to_string()));
    }
    found
}

} // verus!
