//! Regular expressions: what this crate takes on trust from the `regex`
//! crate.
//!
//! What an expression matches is not defined here. It is named: the spec
//! functions below stand for the answers of the `regex` crate, and the
//! contracts of this crate's functions speak of those names.
use regex::Regex;
use vstd::prelude::*;

verus! {

/// `regex::Regex`, a compiled expression: carried about, never looked into.
#[verifier::external_type_specification]
#[verifier::external_body]
pub struct ExRegex(Regex);

/// `regex::Error`, why a pattern was refused: carried about, never looked
/// into.
#[verifier::external_type_specification]
#[verifier::external_body]
pub struct ExRegexError(regex::Error);

/// The pattern that a compiled expression stands for: for an expression
/// that `Regex::new` compiled, the pattern it was given.
pub uninterp spec fn regex_pattern(re: Regex) -> Seq<char>;

/// Whether `Regex::new` accepts `pattern`.
pub uninterp spec fn regex_compiles(pattern: Seq<char>) -> bool;

/// Whether the expression written as `pattern` matches somewhere in `text`.
pub uninterp spec fn regex_is_match(pattern: Seq<char>, text: Seq<char>) -> bool;

/// The capture groups of the first match of the expression written as
/// `pattern` in `text`: `None` where nothing matches; otherwise one entry
/// for each group of the expression, in the order of the opening
/// parentheses, entry 0 standing for the whole match, each entry holding
/// the text that the group matched, or `None` where the group took no part.
pub uninterp spec fn regex_captures(pattern: Seq<char>, text: Seq<char>) -> Option<
    Seq<Option<Seq<char>>>,
>;

/// Capture groups as sequences of characters.
pub open spec fn groups_view(groups: Seq<Option<String>>) -> Seq<Option<Seq<char>>> {
    groups.map_values(
        |g: Option<String>|
            match g {
                Some(s) => Some(s@),
                None => None,
            },
    )
}

/// The outcome of a capture search as sequences of characters.
pub open spec fn captures_view(caps: Option<Vec<Option<String>>>) -> Option<
    Seq<Option<Seq<char>>>,
> {
    match caps {
        Some(groups) => Some(groups_view(groups@)),
        None => None,
    }
}

/// `Regex::new`: compiles `pattern` with the crate's default options.
/// Trusted: the result is `Ok` exactly for the patterns that `regex_compiles`
/// names, and the expression stands for the pattern it was given.
#[verifier::external_body]
pub(crate) fn compile(pattern: &str) -> (r: Result<Regex, regex::Error>)
    ensures
        r is Ok <==> regex_compiles(pattern@),
        r matches Ok(re) ==> regex_pattern(re) == pattern@,
{
    Regex::new(pattern)
}

/// `Regex::is_match`: whether the expression matches anywhere in `text`.
/// Trusted: the answer depends on the expression's pattern and on the text
/// alone, and is what `regex_is_match` names.
#[verifier::external_body]
pub(crate) fn is_match(re: &Regex, text: &str) -> (b: bool)
    ensures
        b == regex_is_match(regex_pattern(*re), text@),
{
    re.is_match(text)
}

/// `Regex::captures`, with `Captures::iter` and `Match::as_str` to hand
/// the groups out as owned strings. Trusted: the groups depend on the
/// expression's pattern and on the text alone, and are what
/// `regex_captures` names.
#[verifier::external_body]
pub(crate) fn captures(re: &Regex, text: &str) -> (caps: Option<Vec<Option<String>>>)
    ensures
        captures_view(caps) == regex_captures(regex_pattern(*re), text@),
{
    re.captures(text).map(|c| c.iter().map(|g| g.map(|m| m.as_str().to_string())).collect())
}

} // verus!
