//! Regular expressions, as the `regex` crate understands them.
//!
//! Nothing about matching is proved here. Each answer of the `regex` crate has
//! a name, a function of the pattern text, the case flag and the text that is
//! searched.

use vstd::prelude::*;

verus! {

#[verifier::external_type_specification]
#[verifier::external_body]
pub struct ExRegex(regex::Regex);

/// What a compiled expression was made from: the pattern text, and whether
/// it is to ignore case.
pub ghost struct RegexOrigin {
    pub pattern: Seq<char>,
    pub ignore_case: bool,
}

/// What `regex` was compiled from.
pub uninterp spec fn regex_origin(regex: regex::Regex) -> RegexOrigin;

/// Whether `pattern` compiles, with or without regard to case.
pub uninterp spec fn regex_compiles(pattern: Seq<char>, ignore_case: bool) -> bool;

/// The leftmost match of `pattern` in `text`, if there is one.
pub uninterp spec fn regex_first_match(
    pattern: Seq<char>,
    ignore_case: bool,
    text: Seq<char>,
) -> Option<Seq<char>>;

/// The pieces of `text` that lie between the matches of `pattern`.
pub uninterp spec fn regex_split(pattern: Seq<char>, ignore_case: bool, text: Seq<char>) -> Seq<
    Seq<char>,
>;

/// Whether `pattern` matches anywhere in `text`: whether there is a first
/// match.
pub open spec fn regex_is_match(pattern: Seq<char>, ignore_case: bool, text: Seq<char>) -> bool {
    regex_first_match(pattern, ignore_case, text) is Some
}

/// Calls `regex::RegexBuilder::new`, `case_insensitive` and `build`. With
/// the flag off this is what `regex::Regex::new` does. Claims that success
/// depends on the pattern and the flag alone, and that the compiled
/// expression remembers both.
#[verifier::external_body]
pub(crate) fn compile_regex(pattern: &str, ignore_case: bool) -> (compiled: Option<regex::Regex>)
    ensures
        compiled is Some <==> regex_compiles(pattern@, ignore_case),
        compiled matches Some(regex) ==> regex_origin(regex) == (RegexOrigin {
            pattern: pattern@,
            ignore_case,
        }),
{
    regex::RegexBuilder::new(pattern).case_insensitive(ignore_case).build().ok()
}

/// Calls `regex::Regex::find` and copies the matched text out.
#[verifier::external_body]
pub(crate) fn find_first(regex: &regex::Regex, text: &str) -> (found: Option<String>)
    ensures
        found.deep_view() == regex_first_match(
            regex_origin(*regex).pattern,
            regex_origin(*regex).ignore_case,
            text@,
        ),
{
    regex.find(text).map(|found| found.as_str().to_string())
}

/// Calls `regex::Regex::is_match`, which is documented to return true if and
/// only if there is a match anywhere in the text, that is where `find`
/// returns one.
#[verifier::external_body]
pub(crate) fn is_match(regex: &regex::Regex, text: &str) -> (hit: bool)
    ensures
        hit == regex_is_match(
            regex_origin(*regex).pattern,
            regex_origin(*regex).ignore_case,
            text@,
        ),
{
    regex.is_match(text)
}

/// Calls `regex::Regex::split` and copies the pieces out, in order.
#[verifier::external_body]
pub(crate) fn split(regex: &regex::Regex, text: &str) -> (pieces: Vec<String>)
    ensures
        pieces.deep_view() == regex_split(
            regex_origin(*regex).pattern,
            regex_origin(*regex).ignore_case,
            text@,
        ),
{
    regex.split(text).map(|piece| piece.to_string()).collect()
}

} // verus!
