use kemenn::changelog::extract_section;
use kemenn::changelog::get_repo_changelog;
use kemenn::changelog::heading_pattern_for;
use kemenn::changelog::split_lines;
use kemenn::changelog::Phase;
use kemenn::changelog::SectionScanner;
use kemenn::error::ReleaseError;

const DOCUMENT: &str =
    "## [1.2.3] - 2024-01-01\nline A\nline B\n## [1.2.2] - 2023-01-01\nline C\n";

fn lines(items: &[&str]) -> Vec<String> {
    items.iter().map(|s| s.to_string()).collect()
}

#[test]
fn section_of_the_first_version() {
    assert_eq!(extract_section(DOCUMENT, "1.2.3"), Ok("line A\nline B\n".to_string()));
}

#[test]
fn section_of_the_second_version() {
    assert_eq!(extract_section(DOCUMENT, "1.2.2"), Ok("line C\n".to_string()));
}

#[test]
fn unknown_version_gives_empty_text() {
    assert_eq!(extract_section(DOCUMENT, "9.9.9"), Ok(String::new()));
}

#[test]
fn extraction_twice_gives_the_same() {
    let first = extract_section(DOCUMENT, "1.2.3");
    let second = extract_section(DOCUMENT, "1.2.3");
    assert_eq!(first, second);
    assert_eq!(extract_section(DOCUMENT, "9.9.9"), extract_section(DOCUMENT, "9.9.9"));
}

#[test]
fn last_line_without_newline_is_read() {
    assert_eq!(
        extract_section("intro\n## [2.0.0] - 2024-05-06\nFixed bug X", "2.0.0"),
        Ok("Fixed bug X\n".to_string())
    );
}

#[test]
fn empty_document_gives_empty_text() {
    assert_eq!(extract_section("", "1.0.0"), Ok(String::new()));
}

#[test]
fn section_runs_to_the_end_of_the_document() {
    let doc = "# Changes\n\n## [0.1.0] - 2020-02-03\n\n- first\n- second\n";
    assert_eq!(extract_section(doc, "0.1.0"), Ok("\n- first\n- second\n".to_string()));
}

#[test]
fn deeper_headings_stay_in_the_section() {
    let doc = "## [1.0.0] - 2021-01-01\n### Added\n- a\n##no space\n## Next\n- b\n";
    assert_eq!(
        extract_section(doc, "1.0.0"),
        Ok("### Added\n- a\n##no space\n".to_string())
    );
}

#[test]
fn any_top_level_heading_ends_the_section() {
    let doc = "## [1.0.0] - 2021-01-01\nbody\n## Unreleased\nmore\n";
    assert_eq!(extract_section(doc, "1.0.0"), Ok("body\n".to_string()));
}

#[test]
fn heading_needs_a_date() {
    let doc = "## [1.0.0]\nbody\n## [1.0.0] - 21-01-01\nbody\n## [1.0.0] - 2021-1-01\n";
    assert_eq!(extract_section(doc, "1.0.0"), Ok(String::new()));
}

#[test]
fn heading_fills_the_whole_line() {
    let doc = " ## [1.0.0] - 2021-01-01\na\n## [1.0.0] - 2021-01-01 (yanked)\nb\n";
    assert_eq!(extract_section(doc, "1.0.0"), Ok(String::new()));
}

#[test]
fn heading_may_hold_more_white_space() {
    let doc = "##  [1.0.0]\t-  2021-01-01\nbody\n";
    assert_eq!(extract_section(doc, "1.0.0"), Ok("body\n".to_string()));
}

#[test]
fn first_heading_of_the_version_counts() {
    let doc = "## [1.0.0] - 2021-01-01\nfirst\n## [1.0.0] - 2021-02-02\nsecond\n";
    assert_eq!(extract_section(doc, "1.0.0"), Ok("first\n".to_string()));
}

#[test]
fn carriage_returns_are_dropped_with_the_newline() {
    let doc = "## [1.0.0] - 2021-01-01\r\nbody\r\n## Next\r\n";
    assert_eq!(extract_section(doc, "1.0.0"), Ok("body\n".to_string()));
}

#[test]
fn version_that_makes_no_expression_is_invalid() {
    assert_eq!(extract_section(DOCUMENT, "("), Err(ReleaseError::InvalidVersion));
    assert_eq!(get_repo_changelog(&lines(&["a"]), "1.0[" ), Err(ReleaseError::InvalidVersion));
}

#[test]
fn changelog_from_lines() {
    let all = lines(&["## [1.2.3] - 2024-01-01", "line A", "line B", "## [1.2.2] - 2023-01-01", "line C"]);
    assert_eq!(get_repo_changelog(&all, "1.2.3"), Ok("line A\nline B\n".to_string()));
    assert_eq!(get_repo_changelog(&all, "1.2.2"), Ok("line C\n".to_string()));
    assert_eq!(get_repo_changelog(&all, "9.9.9"), Ok(String::new()));
    assert_eq!(get_repo_changelog(&Vec::new(), "1.2.3"), Ok(String::new()));
}

#[test]
fn heading_pattern_holds_the_version() {
    assert_eq!(
        heading_pattern_for("1.2.3"),
        r"^##\s+\[1.2.3]\s+-\s+[\d]{4}-[\d]{2}-[\d]{2}$"
    );
}

#[test]
fn split_lines_drops_the_line_ends() {
    assert_eq!(split_lines("a\nb\n"), lines(&["a", "b"]));
    assert_eq!(split_lines("a\nb"), lines(&["a", "b"]));
    assert_eq!(split_lines("a\r\nb\r\n"), lines(&["a", "b"]));
    assert_eq!(split_lines("\n\nx\n"), lines(&["", "", "x"]));
    assert_eq!(split_lines(""), Vec::<String>::new());
    assert_eq!(split_lines("\n"), lines(&[""]));
}

#[test]
fn split_lines_keeps_a_lone_carriage_return() {
    assert_eq!(split_lines("a\rb\n"), lines(&["a\rb"]));
    assert_eq!(split_lines("a\r"), lines(&["a\r"]));
    assert_eq!(split_lines("a\r\r\n"), lines(&["a\r"]));
}

#[test]
fn split_lines_agrees_with_std() {
    for doc in ["", "x", "x\n", "x\ny", "\r\n", "a\r\n\r\nb", "é\nü\r\n", DOCUMENT] {
        let expected: Vec<String> = doc.lines().map(|l| l.to_string()).collect();
        assert_eq!(split_lines(doc), expected);
    }
}

#[test]
fn scanner_goes_through_its_phases() {
    let mut scanner = SectionScanner::new("1.2.3").unwrap();
    assert_eq!(scanner.phase(), Phase::Searching);
    assert!(scanner.feed("# Changelog"));
    assert_eq!(scanner.phase(), Phase::Searching);
    assert!(scanner.feed("## [1.2.3] - 2024-01-01"));
    assert_eq!(scanner.phase(), Phase::Collecting);
    assert!(scanner.feed("line A"));
    assert!(!scanner.feed("## [1.2.3] - 2024-01-01 again"));
    assert_eq!(scanner.phase(), Phase::Finished);
    assert!(!scanner.feed("line B"));
    assert_eq!(scanner.into_text(), "line A\n");
}

#[test]
fn scanner_that_is_stopped_early_holds_what_it_read() {
    let mut scanner = SectionScanner::new("1.2.3").unwrap();
    scanner.feed("## [1.2.3] - 2024-01-01");
    scanner.feed("line A");
    assert_eq!(scanner.phase(), Phase::Collecting);
    assert_eq!(scanner.into_text(), "line A\n");
}

#[test]
fn scanner_advances_on_the_flag_it_is_given() {
    let mut scanner = SectionScanner::new("1.2.3").unwrap();
    assert!(scanner.advance("not a heading", true));
    assert_eq!(scanner.phase(), Phase::Collecting);
    assert!(scanner.advance("## [1.2.3] - 2024-01-01", false) == false);
    assert_eq!(scanner.phase(), Phase::Finished);
    assert_eq!(scanner.into_text(), "");

    let mut other = SectionScanner::new("1.2.3").unwrap();
    assert!(other.advance("## [1.2.3] - 2024-01-01", false));
    assert_eq!(other.phase(), Phase::Searching);
}

#[test]
fn scanner_refuses_a_version_that_makes_no_expression() {
    assert!(matches!(SectionScanner::new("1.2.3("), Err(ReleaseError::InvalidVersion)));
}
