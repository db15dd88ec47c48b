//! Semantic versions: the `MAJOR.MINOR.PATCH` token inside a tag.
use crate::error::ReleaseError;
use crate::error::ReleaseErrorView;
use crate::pattern::captures;
use crate::pattern::captures_view;
use crate::pattern::compile;
use crate::pattern::regex_captures;
use crate::pattern::regex_compiles;
use vstd::prelude::*;

verus! {

/// The expression a tag is held against: an optional prefix that holds no
/// dot and does not end in a digit, then digits, a dot, digits, a dot, a
/// digit and whatever follows. As the prefix cannot end in a digit, all the
/// digits before the first dot of the version belong to the version.
pub const SEMANTIC_PATTERN: &'static str = "([^.]*[^.\\d])?([\\d]+\\.[\\d]+\\.[\\d].*)";

/// The expression a tag is held against, as a sequence of characters.
pub open spec fn semantic_pattern() -> Seq<char> {
    SEMANTIC_PATTERN@
}

/// The version that a capture search on `raw` stands for: `raw` itself
/// where the search yields the whole match alone, the second group where it
/// yields the whole match and two groups, and nothing for any other
/// outcome.
pub open spec fn semantic_of(raw: Seq<char>, caps: Option<Seq<Option<Seq<char>>>>) -> Option<
    Seq<char>,
> {
    match caps {
        None => None,
        Some(groups) => if groups.len() == 1 {
            Some(raw)
        } else if groups.len() == 3 {
            groups[2]
        } else {
            None
        },
    }
}

/// The semantic version inside the tag `raw`, if it has one.
pub open spec fn semantic_version(raw: Seq<char>) -> Option<Seq<char>> {
    if regex_compiles(semantic_pattern()) {
        semantic_of(raw, regex_captures(semantic_pattern(), raw))
    } else {
        None
    }
}

/// Where the expression finds nothing in the tag, the tag holds no
/// version.
pub proof fn lemma_unmatched_tag_is_invalid(raw: Seq<char>)
    requires
        regex_captures(semantic_pattern(), raw) is None,
    ensures
        semantic_version(raw) is None,
{
}

/// Where the expression is accepted and finds its two groups in the tag,
/// the version is what the second group matched, whatever the first one
/// took for the prefix.
pub proof fn lemma_version_is_second_group(
    raw: Seq<char>,
    whole: Option<Seq<char>>,
    prefix: Option<Seq<char>>,
    body: Seq<char>,
)
    requires
        regex_compiles(semantic_pattern()),
        regex_captures(semantic_pattern(), raw) == Some(seq![whole, prefix, Some(body)]),
    ensures
        semantic_version(raw) == Some(body),
{
}

/// Where the expression is accepted and takes the whole tag for its second
/// group, with no prefix before it, the tag comes back unchanged.
pub proof fn lemma_whole_tag_is_kept(raw: Seq<char>, whole: Option<Seq<char>>)
    requires
        regex_compiles(semantic_pattern()),
        regex_captures(semantic_pattern(), raw) == Some(seq![whole, None, Some(raw)]),
    ensures
        semantic_version(raw) == Some(raw),
{
}

/// Picks the semantic version out of the groups that a capture search on
/// `version` gave.
pub fn semantic_from_captures(version: &str, caps: Option<Vec<Option<String>>>) -> (r: Result<
    String,
    ReleaseError,
>)
    ensures
        match semantic_of(version@, captures_view(caps)) {
            Some(v) => r matches Ok(s) && s@ == v,
            None => r matches Err(e) && e@ == ReleaseErrorView::InvalidVersion,
        },
{
    match caps {
        None => Err(ReleaseError::InvalidVersion),
        Some(mut groups) => {
            let n = groups.len();
            if n == 1 {
                Ok(version.to_owned())
            } else if n == 3 {
                match groups.pop() {
                    Some(Some(body)) => Ok(body),
                    _ => Err(ReleaseError::InvalidVersion),
                }
            } else {
                Err(ReleaseError::InvalidVersion)
            }
        },
    }
}

/// Extracts the semantic version from a tag: `Ok` with the version exactly
/// when the tag holds one, `InvalidVersion` otherwise.
///
/// The tag is searched with `SEMANTIC_PATTERN`, and the version is what its
/// second group matched: of `v2.0.0` and of `2.0.0` it is `2.0.0`, of
/// `rel-10.2.3` it is `10.2.3`.
pub fn extract_semantic(version: &str) -> (r: Result<String, ReleaseError>)
    ensures
        match semantic_version(version@) {
            Some(v) => r matches Ok(s) && s@ == v,
            None => r matches Err(e) && e@ == ReleaseErrorView::InvalidVersion,
        },
{
    match compile(SEMANTIC_PATTERN) {
        Err(_) => Err(ReleaseError::InvalidVersion),
        Ok(re) => semantic_from_captures(version, captures(&re, version)),
    }
}

} // verus!
