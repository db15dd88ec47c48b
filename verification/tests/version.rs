use kemenn::error::ReleaseError;
use kemenn::version::extract_semantic;
use kemenn::version::semantic_from_captures;

fn text(s: &str) -> Option<String> {
    Some(s.to_string())
}

#[test]
fn plain_version_is_returned_unchanged() {
    assert_eq!(extract_semantic("1.2.3"), Ok("1.2.3".to_string()));
    assert_eq!(extract_semantic("0.0.1"), Ok("0.0.1".to_string()));
}

#[test]
fn plain_version_keeps_its_suffix() {
    assert_eq!(extract_semantic("1.2.3-rc1"), Ok("1.2.3-rc1".to_string()));
    assert_eq!(extract_semantic("1.2.3+build.7"), Ok("1.2.3+build.7".to_string()));
}

#[test]
fn prefix_is_dropped() {
    assert_eq!(extract_semantic("v2.0.0"), Ok("2.0.0".to_string()));
    assert_eq!(extract_semantic("release-1.2.3"), Ok("1.2.3".to_string()));
    assert_eq!(extract_semantic("v1.2.3-beta"), Ok("1.2.3-beta".to_string()));
}

#[test]
fn text_without_three_numbers_is_invalid() {
    assert_eq!(extract_semantic("abc"), Err(ReleaseError::InvalidVersion));
    assert_eq!(extract_semantic("1.2"), Err(ReleaseError::InvalidVersion));
    assert_eq!(extract_semantic("v1"), Err(ReleaseError::InvalidVersion));
    assert_eq!(extract_semantic("1..2"), Err(ReleaseError::InvalidVersion));
    assert_eq!(extract_semantic(""), Err(ReleaseError::InvalidVersion));
}

#[test]
fn no_match_gives_invalid_version() {
    assert_eq!(semantic_from_captures("v1", None), Err(ReleaseError::InvalidVersion));
}

#[test]
fn whole_match_alone_gives_the_raw_text() {
    assert_eq!(semantic_from_captures("1.2.3", Some(vec![text("1.2.3")])), Ok("1.2.3".to_string()));
    assert_eq!(semantic_from_captures("v1", Some(vec![text("1")])), Ok("v1".to_string()));
}

#[test]
fn whole_match_and_one_group_is_invalid() {
    assert_eq!(
        semantic_from_captures("1.2.3", Some(vec![text("1.2.3"), None])),
        Err(ReleaseError::InvalidVersion)
    );
    assert_eq!(
        semantic_from_captures("1.2.3", Some(vec![text("1.2.3"), text("1.2.3")])),
        Err(ReleaseError::InvalidVersion)
    );
}

#[test]
fn two_groups_give_the_second() {
    assert_eq!(
        semantic_from_captures("v2.0.0", Some(vec![text("v2.0.0"), text("v"), text("2.0.0")])),
        Ok("2.0.0".to_string())
    );
    assert_eq!(
        semantic_from_captures("2.0.0", Some(vec![text("2.0.0"), None, text("2.0.0")])),
        Ok("2.0.0".to_string())
    );
}

#[test]
fn missing_second_group_is_invalid() {
    assert_eq!(
        semantic_from_captures("v2.0.0", Some(vec![text("v2.0.0"), text("v"), None])),
        Err(ReleaseError::InvalidVersion)
    );
}

#[test]
fn other_group_counts_are_invalid() {
    assert_eq!(semantic_from_captures("x", Some(vec![])), Err(ReleaseError::InvalidVersion));
    assert_eq!(
        semantic_from_captures("x", Some(vec![text("a"), text("b"), text("c"), text("d")])),
        Err(ReleaseError::InvalidVersion)
    );
}

#[test]
fn error_messages() {
    assert_eq!(ReleaseError::InvalidVersion.message(), "Invalid version");
    assert_eq!(
        ReleaseError::MissingProjectName.message(),
        "Failed to extract project name from URL"
    );
    assert_eq!(
        ReleaseError::CommandError("git describe failed".to_string()).message(),
        "git describe failed"
    );
    assert_eq!(ReleaseError::IoError("no such file".to_string()).message(), "no such file");
    assert_eq!(
        ReleaseError::TemplateError("bad".to_string()).message(),
        "bad"
    );
}

#[test]
fn major_of_several_digits_stays_whole() {
    assert_eq!(extract_semantic("10.2.3"), Ok("10.2.3".to_string()));
    assert_eq!(extract_semantic("v10.2.3"), Ok("10.2.3".to_string()));
    assert_eq!(extract_semantic("rel-10.2.3"), Ok("10.2.3".to_string()));
    assert_eq!(extract_semantic("2024.10.31"), Ok("2024.10.31".to_string()));
    assert_eq!(extract_semantic("v123.456.789-rc1"), Ok("123.456.789-rc1".to_string()));
}

#[test]
fn prefix_may_hold_digits_but_not_end_in_one() {
    assert_eq!(extract_semantic("py3-1.2.3"), Ok("1.2.3".to_string()));
    assert_eq!(extract_semantic("py3k10.2.3"), Ok("10.2.3".to_string()));
    assert_eq!(extract_semantic("3rd-12.0.1"), Ok("12.0.1".to_string()));
}

#[test]
fn version_is_found_behind_a_dotted_prefix() {
    assert_eq!(extract_semantic("rel.1.2.3"), Ok("1.2.3".to_string()));
}
