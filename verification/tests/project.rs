use kemenn::error::ReleaseError;
use kemenn::project::changelog_version;
use kemenn::project::get_project_name;
use kemenn::project::git_arguments;
use kemenn::project::Project;
use kemenn::project::ReleaseInfo;
use kemenn::project::Reply;
use kemenn::project::Request;
use kemenn::project::Resolution;

fn text(s: &str) -> Reply {
    Reply::Text(s.to_string())
}

fn run(mut resolution: Resolution, replies: Vec<Reply>) -> Resolution {
    for reply in replies {
        resolution = resolution.step(reply);
    }
    resolution
}

fn acme(changelog: &str) -> ReleaseInfo {
    ReleaseInfo {
        project: "acme".to_string(),
        url: "https://example.com/org/acme.git".to_string(),
        version: "v2.0.0".to_string(),
        changelog: changelog.to_string(),
    }
}

#[test]
fn project_name_from_an_ssh_url() {
    assert_eq!(get_project_name("git@example.com:org/myproj.git"), Some("myproj".to_string()));
}

#[test]
fn project_name_without_suffix() {
    assert_eq!(get_project_name("https://example.com/org/myproj"), Some("myproj".to_string()));
}

#[test]
fn project_name_without_slash() {
    assert_eq!(get_project_name("myproj.git"), Some("myproj".to_string()));
    assert_eq!(get_project_name("myproj"), Some("myproj".to_string()));
}

#[test]
fn only_a_trailing_suffix_is_dropped() {
    assert_eq!(get_project_name("https://example.com/my.github.io"), Some("my.github.io".to_string()));
    assert_eq!(get_project_name("https://example.com/a.git.git"), Some("a.git".to_string()));
    assert_eq!(get_project_name("https://example.com/x.git/proj"), Some("proj".to_string()));
    assert_eq!(get_project_name("org/git"), Some("git".to_string()));
}

#[test]
fn url_without_last_segment_has_no_project_name() {
    assert_eq!(get_project_name(""), None);
    assert_eq!(get_project_name("https://example.com/"), None);
    assert_eq!(get_project_name("/"), None);
}

#[test]
fn project_defaults() {
    let project = Project::new("/srv/repo");
    assert_eq!(project.path, "/srv/repo");
    assert_eq!(project.changelog, "NEWS.md");
    assert!(!project.loose);
}

#[test]
fn project_setters() {
    let mut project = Project::new("repo");
    project.set_changelog("CHANGELOG.md");
    project.set_loose(true);
    assert_eq!(
        project,
        Project { path: "repo".to_string(), changelog: "CHANGELOG.md".to_string(), loose: true }
    );
    project.set_loose(false);
    assert!(!project.loose);
    assert_eq!(project.changelog, "CHANGELOG.md");
}

#[test]
fn lookup_version_strict_and_loose() {
    assert_eq!(changelog_version(false, "v2.0.0"), Ok("2.0.0".to_string()));
    assert_eq!(changelog_version(true, "v2.0.0"), Ok("v2.0.0".to_string()));
    assert_eq!(changelog_version(true, "nightly"), Ok("nightly".to_string()));
    assert_eq!(changelog_version(false, "nightly"), Err(ReleaseError::InvalidVersion));
    assert_eq!(changelog_version(true, ""), Err(ReleaseError::InvalidVersion));
    assert_eq!(changelog_version(false, ""), Err(ReleaseError::InvalidVersion));
}

#[test]
fn resolution_asks_for_one_thing_at_a_time() {
    let project = Project::new("repo");
    let mut resolution = project.release_info(&None);
    assert_eq!(resolution.request(), Some(Request::RemoteUrl));
    resolution = resolution.step(text("https://example.com/org/acme.git"));
    assert_eq!(resolution.request(), Some(Request::LatestTag));
    resolution = resolution.step(text("v2.0.0"));
    assert_eq!(resolution.request(), Some(Request::ChangelogLine));
    resolution = resolution.step(text("## [2.0.0] - 2024-03-04"));
    assert_eq!(resolution.request(), Some(Request::ChangelogLine));
    resolution = resolution.step(text("Fixed bug X"));
    assert_eq!(resolution.request(), Some(Request::ChangelogLine));
    resolution = resolution.step(text("## [1.0.0] - 2023-03-04"));
    assert_eq!(resolution.request(), None);
    assert_eq!(resolution.outcome(), Some(Ok(acme("Fixed bug X\n"))));
}

#[test]
fn resolution_of_the_latest_tag() {
    let project = Project::new("repo");
    let done = run(
        project.release_info(&None),
        vec![
            text("https://example.com/org/acme.git"),
            text("v2.0.0"),
            text("# News"),
            text("## [2.0.0] - 2024-03-04"),
            text("Fixed bug X"),
            Reply::End,
        ],
    );
    assert_eq!(done.outcome(), Some(Ok(acme("Fixed bug X\n"))));
}

#[test]
fn resolution_of_an_explicit_version_asks_for_no_tag() {
    let project = Project::new("repo");
    let mut resolution = project.release_info(&Some("1.5.0".to_string()));
    resolution = resolution.step(text("git@example.com:org/tool.git"));
    assert_eq!(resolution.request(), Some(Request::ChangelogLine));
    let done = run(
        resolution,
        vec![text("## [1.5.0] - 2022-02-02"), text("news"), Reply::End],
    );
    assert_eq!(
        done.outcome(),
        Some(Ok(ReleaseInfo {
            project: "tool".to_string(),
            url: "git@example.com:org/tool.git".to_string(),
            version: "1.5.0".to_string(),
            changelog: "news\n".to_string(),
        }))
    );
}

#[test]
fn record_keeps_the_tag_as_it_was() {
    let project = Project::new("repo");
    let done = run(
        project.release_info(&None),
        vec![text("org/acme"), text("release-3.1.4-rc2"), text("## [3.1.4-rc2] - 2024-03-04"), text("x"), Reply::End],
    );
    match done.outcome() {
        Some(Ok(info)) => {
            assert_eq!(info.version, "release-3.1.4-rc2");
            assert_eq!(info.changelog, "x\n");
        }
        other => panic!("unexpected outcome: {:?}", other),
    }
}

#[test]
fn missing_section_is_no_error() {
    let project = Project::new("repo");
    let done = run(
        project.release_info(&None),
        vec![text("org/acme.git"), text("v2.0.0"), text("## [1.0.0] - 2024-03-04"), text("old"), Reply::End],
    );
    match done.outcome() {
        Some(Ok(info)) => assert_eq!(info.changelog, ""),
        other => panic!("unexpected outcome: {:?}", other),
    }
}

#[test]
fn missing_tag_fails_with_command_error() {
    let project = Project::new("repo");
    let failed = run(
        project.release_info(&None),
        vec![
            text("https://example.com/org/acme.git"),
            Reply::Failure("fatal: No names found, cannot describe anything.".to_string()),
        ],
    );
    assert_eq!(failed.request(), None);
    assert_eq!(
        failed.outcome(),
        Some(Err(ReleaseError::CommandError(
            "fatal: No names found, cannot describe anything.".to_string()
        )))
    );
}

#[test]
fn missing_remote_fails_with_command_error() {
    let project = Project::new("repo");
    let failed = project.release_info(&Some("1.0.0".to_string())).step(Reply::Failure("no remote".to_string()));
    assert_eq!(failed.outcome(), Some(Err(ReleaseError::CommandError("no remote".to_string()))));
}

#[test]
fn silent_backend_fails_with_command_error() {
    let project = Project::new("repo");
    let failed = project.release_info(&None).step(Reply::End);
    assert_eq!(
        failed.outcome(),
        Some(Err(ReleaseError::CommandError("The backend gave no output".to_string())))
    );
    let failed = run(project.release_info(&None), vec![text("org/acme"), Reply::End]);
    assert_eq!(
        failed.outcome(),
        Some(Err(ReleaseError::CommandError("The backend gave no output".to_string())))
    );
}

#[test]
fn url_without_project_fails() {
    let project = Project::new("repo");
    let failed = project.release_info(&None).step(text("https://example.com/"));
    assert_eq!(failed.outcome(), Some(Err(ReleaseError::MissingProjectName)));
}

#[test]
fn tag_without_version_fails_when_strict() {
    let project = Project::new("repo");
    let failed = run(project.release_info(&None), vec![text("org/acme"), text("nightly")]);
    assert_eq!(failed.outcome(), Some(Err(ReleaseError::InvalidVersion)));
}

#[test]
fn any_tag_is_taken_when_loose() {
    let mut project = Project::new("repo");
    project.set_loose(true);
    let done = run(
        project.release_info(&None),
        vec![text("org/acme"), text("nightly"), text("## [nightly] - 2024-03-04"), text("x"), Reply::End],
    );
    assert_eq!(
        done.outcome(),
        Some(Ok(ReleaseInfo {
            project: "acme".to_string(),
            url: "org/acme".to_string(),
            version: "nightly".to_string(),
            changelog: "x\n".to_string(),
        }))
    );
}

#[test]
fn loose_prefix_is_kept_for_the_lookup() {
    let mut project = Project::new("repo");
    project.set_loose(true);
    let done = run(
        project.release_info(&None),
        vec![text("org/acme"), text("v2.0.0"), text("## [2.0.0] - 2024-03-04"), text("x"), Reply::End],
    );
    match done.outcome() {
        Some(Ok(info)) => assert_eq!(info.changelog, ""),
        other => panic!("unexpected outcome: {:?}", other),
    }
}

#[test]
fn empty_version_is_invalid() {
    let mut project = Project::new("repo");
    project.set_loose(true);
    let failed = run(project.release_info(&Some(String::new())), vec![text("org/acme")]);
    assert_eq!(failed.outcome(), Some(Err(ReleaseError::InvalidVersion)));
}

#[test]
fn unreadable_changelog_fails_with_io_error() {
    let project = Project::new("repo");
    let failed = run(
        project.release_info(&None),
        vec![text("org/acme"), text("v2.0.0"), Reply::Failure("No such file or directory".to_string())],
    );
    assert_eq!(
        failed.outcome(),
        Some(Err(ReleaseError::IoError("No such file or directory".to_string())))
    );
}

#[test]
fn unfinished_resolution_has_no_outcome() {
    let project = Project::new("repo");
    assert_eq!(project.release_info(&None).outcome(), None);
    assert_eq!(project.release_info(&None).step(text("org/acme")).outcome(), None);
    assert_eq!(run(project.release_info(&None), vec![text("org/acme"), text("1.0.0")]).outcome(), None);
}

#[test]
fn finished_resolution_ignores_further_replies() {
    let project = Project::new("repo");
    let done = run(
        project.release_info(&None),
        vec![
            text("org/acme.git"),
            text("2.0.0"),
            text("## [2.0.0] - 2024-03-04"),
            text("x"),
            text("## [1.0.0] - 2023-03-04"),
            text("y"),
            Reply::Failure("late".to_string()),
            Reply::End,
        ],
    );
    match done.outcome() {
        Some(Ok(info)) => assert_eq!(info.changelog, "x\n"),
        other => panic!("unexpected outcome: {:?}", other),
    }
    let failed = run(
        project.release_info(&None),
        vec![Reply::Failure("first".to_string()), text("org/acme"), Reply::Failure("second".to_string())],
    );
    assert_eq!(failed.outcome(), Some(Err(ReleaseError::CommandError("first".to_string()))));
}

#[test]
fn git_arguments_of_each_request() {
    assert_eq!(git_arguments(Request::RemoteUrl), vec!["config", "--get", "remote.origin.url"]);
    assert_eq!(git_arguments(Request::LatestTag), vec!["describe", "--abbrev=0", "--tags"]);
    assert_eq!(git_arguments(Request::ChangelogLine), Vec::<String>::new());
}
