//! A project and the record of its latest release.
use crate::changelog::heading_pattern;
use crate::changelog::lemma_scan_lines;
use crate::changelog::scan_line;
use crate::changelog::scan_lines;
use crate::changelog::section_text;
use crate::changelog::scan_start;
use crate::changelog::Phase;
use crate::changelog::Scan;
use crate::changelog::SectionScanner;
use crate::error::ReleaseError;
use crate::error::ReleaseErrorView;
use crate::pattern::regex_compiles;
use crate::text::chars_of;
use crate::text::last_segment;
use crate::text::lemma_last_segment_unique;
use crate::text::string_of;
use crate::text::without_suffix;
use crate::version::extract_semantic;
use crate::version::semantic_version;
use vstd::prelude::*;

verus! {

/// The suffix that a repository URL may carry behind the project's name.
pub open spec fn git_suffix() -> Seq<char> {
    seq!['.', 'g', 'i', 't']
}

/// The name of the project behind a remote URL: what follows the last slash,
/// without a trailing `.git`.
pub open spec fn project_name(url: Seq<char>) -> Seq<char> {
    without_suffix(last_segment(url, '/'), git_suffix())
}

/// Derives the project's name from its remote URL.
///
/// Returns `None` exactly when nothing follows the last slash of the URL
/// (the empty URL included); otherwise the last segment, without a trailing
/// `.git`.
pub fn get_project_name(url: &str) -> (r: Option<String>)
    ensures
        match r {
            Some(name) => last_segment(url@, '/').len() > 0 && name@ == project_name(url@),
            None => last_segment(url@, '/').len() == 0,
        },
{
    let chars = chars_of(url);
    let n = chars.len();
    let mut start = n;
    while start > 0 && chars[start - 1] != '/'
        invariant
            start <= n,
            n == chars.len(),
            forall|i: int| start <= i < n ==> chars@[i] != '/',
        decreases start,
    {
        start -= 1;
    }
    proof {
        lemma_last_segment_unique(chars@, '/', start as int);
    }
    if start == n {
        return None;
    }
    let end = if n - start >= 4 && chars[n - 4] == '.' && chars[n - 3] == 'g' && chars[n - 2] == 'i'
        && chars[n - 1] == 't' {
        n - 4
    } else {
        n
    };
    proof {
        let segment = chars@.subrange(start as int, n as int);
        let tail = segment.subrange(segment.len() - 4, segment.len() as int);
        if end == n - 4 {
            assert(tail =~= git_suffix());
            assert(segment.subrange(0, segment.len() - 4) =~= chars@.subrange(
                start as int,
                end as int,
            ));
        } else if segment.len() >= 4 {
            assert(tail[0] == chars@[n - 4]);
            assert(tail[1] == chars@[n - 3]);
            assert(tail[2] == chars@[n - 2]);
            assert(tail[3] == chars@[n - 1]);
        }
    }
    Some(string_of(&chars, start, end))
}

/// What is known of a release: the project, where it lives, the version
/// as it is announced, and the changelog's words about it.
#[derive(Debug, PartialEq, Eq)]
pub struct ReleaseInfo {
    pub project: String,
    pub url: String,
    pub version: String,
    pub changelog: String,
}

/// A `ReleaseInfo` with its texts as sequences of characters.
pub struct ReleaseInfoView {
    pub project: Seq<char>,
    pub url: Seq<char>,
    pub version: Seq<char>,
    pub changelog: Seq<char>,
}

impl View for ReleaseInfo {
    type V = ReleaseInfoView;

    open spec fn view(&self) -> ReleaseInfoView {
        ReleaseInfoView {
            project: self.project@,
            url: self.url@,
            version: self.version@,
            changelog: self.changelog@,
        }
    }
}

/// The version under which the changelog is searched: the semantic version
/// inside `version`, or `version` as it stands where `loose` is set. An
/// empty version has none.
pub open spec fn lookup_version(loose: bool, version: Seq<char>) -> Option<Seq<char>> {
    if version.len() == 0 {
        None
    } else if loose {
        Some(version)
    } else {
        semantic_version(version)
    }
}

/// Computes the version under which the changelog is searched; fails with
/// `InvalidVersion` exactly when there is none.
pub fn changelog_version(loose: bool, version: &str) -> (r: Result<String, ReleaseError>)
    ensures
        match lookup_version(loose, version@) {
            Some(v) => r matches Ok(s) && s@ == v,
            None => r matches Err(e) && e@ == ReleaseErrorView::InvalidVersion,
        },
{
    if version.is_empty() {
        Err(ReleaseError::InvalidVersion)
    } else if loose {
        Ok(version.to_owned())
    } else {
        extract_semantic(version)
    }
}

/// What the caller has to fetch next for a resolution to go on.
#[derive(Clone, Copy, Debug, PartialEq, Eq, Structural)]
pub enum Request {
    /// The URL of the remote named `origin`.
    RemoteUrl,
    /// The most recent tag that can be reached.
    LatestTag,
    /// The next line of the changelog.
    ChangelogLine,
}

/// The arguments with which git answers a request, to be given behind
/// `--git-dir` and the repository's git directory; none for a request that
/// git does not answer.
pub open spec fn git_arguments_of(request: Request) -> Seq<Seq<char>> {
    match request {
        Request::RemoteUrl => seq!["config"@, "--get"@, "remote.origin.url"@],
        Request::LatestTag => seq!["describe"@, "--abbrev=0"@, "--tags"@],
        Request::ChangelogLine => Seq::empty(),
    }
}

/// The arguments with which git answers a request: the configured URL of
/// the remote `origin`, or the name of the latest tag without a distance.
pub fn git_arguments(request: Request) -> (arguments: Vec<String>)
    ensures
        arguments.deep_view() == git_arguments_of(request),
{
    let mut arguments: Vec<String> = Vec::new();
    match request {
        Request::RemoteUrl => {
            arguments.push("config".to_owned());
            arguments.push("--get".to_owned());
            arguments.push("remote.origin.url".to_owned());
        },
        Request::LatestTag => {
            arguments.push("describe".to_owned());
            arguments.push("--abbrev=0".to_owned());
            arguments.push("--tags".to_owned());
        },
        Request::ChangelogLine => {},
    }
    assert(arguments.deep_view() =~= git_arguments_of(request));
    arguments
}

/// What a `CommandError` holds where the backend ended without a word.
pub const NO_OUTPUT: &'static str = "The backend gave no output";

/// What the caller found.
#[derive(Debug, PartialEq, Eq)]
pub enum Reply {
    /// The text asked for: the output of the backend, or a line.
    Text(String),
    /// Nothing is left: the backend printed nothing, or the changelog has
    /// no further line.
    End,
    /// The attempt failed; holds the diagnostic.
    Failure(String),
}

/// A `Reply` with its texts as sequences of characters.
pub enum ReplyView {
    Text(Seq<char>),
    End,
    Failure(Seq<char>),
}

impl View for Reply {
    type V = ReplyView;

    open spec fn view(&self) -> ReplyView {
        match self {
            Reply::Text(t) => ReplyView::Text(t@),
            Reply::End => ReplyView::End,
            Reply::Failure(m) => ReplyView::Failure(m@),
        }
    }
}

/// How far a resolution has come, as plain values.
pub enum StageView {
    /// The remote URL is awaited.
    Url,
    /// The latest tag is awaited.
    Tag { url: Seq<char>, project: Seq<char> },
    /// The changelog is being read.
    Changelog { url: Seq<char>, project: Seq<char>, version: Seq<char>, scan: Scan },
    /// The record is complete.
    Done(ReleaseInfoView),
    /// The resolution failed.
    Failed(ReleaseErrorView),
}

/// A resolution as plain values.
pub struct ResolutionView {
    pub loose: bool,
    pub explicit: Option<Seq<char>>,
    pub stage: StageView,
}

/// The resolution before anything was fetched.
pub open spec fn resolution_start(loose: bool, explicit: Option<Seq<char>>) -> ResolutionView {
    ResolutionView { loose, explicit, stage: StageView::Url }
}

/// The stage reached once the version is known: the changelog is read
/// under the lookup version, or the resolution fails with `InvalidVersion`
/// where there is none or no heading expression can be made of it.
pub open spec fn stage_with_version(
    loose: bool,
    url: Seq<char>,
    project: Seq<char>,
    version: Seq<char>,
) -> StageView {
    match lookup_version(loose, version) {
        Some(lookup) => if regex_compiles(heading_pattern(lookup)) {
            StageView::Changelog { url, project, version, scan: scan_start(heading_pattern(lookup)) }
        } else {
            StageView::Failed(ReleaseErrorView::InvalidVersion)
        },
        None => StageView::Failed(ReleaseErrorView::InvalidVersion),
    }
}

/// The stage reached once the remote URL is known.
pub open spec fn stage_with_url(loose: bool, explicit: Option<Seq<char>>, url: Seq<char>)
    -> StageView {
    if last_segment(url, '/').len() == 0 {
        StageView::Failed(ReleaseErrorView::MissingProjectName)
    } else {
        match explicit {
            Some(version) => stage_with_version(loose, url, project_name(url), version),
            None => StageView::Tag { url, project: project_name(url) },
        }
    }
}

/// The stage reached once the changelog has been read as far as needed.
pub open spec fn stage_done(
    url: Seq<char>,
    project: Seq<char>,
    version: Seq<char>,
    changelog: Seq<char>,
) -> StageView {
    StageView::Done(ReleaseInfoView { project, url, version, changelog })
}

/// The stage that follows `stage` when the caller hands in `reply`.
pub open spec fn next_stage(loose: bool, explicit: Option<Seq<char>>, stage: StageView, reply: ReplyView)
    -> StageView {
    match stage {
        StageView::Url => match reply {
            ReplyView::Text(url) => stage_with_url(loose, explicit, url),
            ReplyView::End => StageView::Failed(ReleaseErrorView::CommandError(NO_OUTPUT@)),
            ReplyView::Failure(m) => StageView::Failed(ReleaseErrorView::CommandError(m)),
        },
        StageView::Tag { url, project } => match reply {
            ReplyView::Text(tag) => stage_with_version(loose, url, project, tag),
            ReplyView::End => StageView::Failed(ReleaseErrorView::CommandError(NO_OUTPUT@)),
            ReplyView::Failure(m) => StageView::Failed(ReleaseErrorView::CommandError(m)),
        },
        StageView::Changelog { url, project, version, scan } => match reply {
            ReplyView::Text(line) => if scan_line(scan, line).phase == Phase::Finished {
                stage_done(url, project, version, scan_line(scan, line).text)
            } else {
                StageView::Changelog { url, project, version, scan: scan_line(scan, line) }
            },
            ReplyView::End => stage_done(url, project, version, scan.text),
            ReplyView::Failure(m) => StageView::Failed(ReleaseErrorView::IoError(m)),
        },
        StageView::Done(_) => stage,
        StageView::Failed(_) => stage,
    }
}

/// The resolution that follows `r` when the caller hands in `reply`.
pub open spec fn next_resolution(r: ResolutionView, reply: ReplyView) -> ResolutionView {
    ResolutionView { stage: next_stage(r.loose, r.explicit, r.stage, reply), ..r }
}

/// What a resolution at `stage` asks of the caller; nothing once it is done
/// or has failed.
pub open spec fn request_of(stage: StageView) -> Option<Request> {
    match stage {
        StageView::Url => Some(Request::RemoteUrl),
        StageView::Tag { .. } => Some(Request::LatestTag),
        StageView::Changelog { .. } => Some(Request::ChangelogLine),
        StageView::Done(_) => None,
        StageView::Failed(_) => None,
    }
}

/// The resolution that `r` becomes when the caller hands in the replies
/// one after the other.
pub open spec fn after_replies(r: ResolutionView, replies: Seq<ReplyView>) -> ResolutionView
    decreases replies.len(),
{
    if replies.len() == 0 {
        r
    } else {
        next_resolution(after_replies(r, replies.drop_last()), replies.last())
    }
}

/// The lines of a changelog as the replies that hand them in.
pub open spec fn line_replies(lines: Seq<Seq<char>>) -> Seq<ReplyView> {
    Seq::new(lines.len(), |i: int| ReplyView::Text(lines[i]))
}

/// The release of a project whose remote URL is `url`, whose version is
/// `version` and whose changelog holds `lines`: `MissingProjectName` where
/// the URL names no project, `InvalidVersion` where the changelog cannot be
/// searched under the version, and otherwise the record, with the version as
/// it was given and the body of its section.
pub open spec fn release_of(loose: bool, url: Seq<char>, version: Seq<char>, lines: Seq<Seq<char>>)
    -> Result<ReleaseInfoView, ReleaseErrorView> {
    if last_segment(url, '/').len() == 0 {
        Err(ReleaseErrorView::MissingProjectName)
    } else {
        match lookup_version(loose, version) {
            Some(lookup) => if regex_compiles(heading_pattern(lookup)) {
                Ok(
                    ReleaseInfoView {
                        project: project_name(url),
                        url,
                        version,
                        changelog: section_text(lines, heading_pattern(lookup)),
                    },
                )
            } else {
                Err(ReleaseErrorView::InvalidVersion)
            },
            None => Err(ReleaseErrorView::InvalidVersion),
        }
    }
}

/// The stage at which a resolution with the given result rests.
pub open spec fn final_stage(result: Result<ReleaseInfoView, ReleaseErrorView>) -> StageView {
    match result {
        Ok(info) => StageView::Done(info),
        Err(error) => StageView::Failed(error),
    }
}

/// Handing in replies in two runs is handing them in at once.
pub proof fn lemma_after_replies_split(r: ResolutionView, first: Seq<ReplyView>, then: Seq<ReplyView>)
    ensures
        after_replies(r, first + then) == after_replies(after_replies(r, first), then),
    decreases then.len(),
{
    if then.len() == 0 {
        assert(first + then =~= first);
    } else {
        assert((first + then).drop_last() =~= first + then.drop_last());
        lemma_after_replies_split(r, first, then.drop_last());
    }
}

/// Handing in one reply is one step; handing in two is two steps.
proof fn lemma_after_first_replies(r: ResolutionView, a: ReplyView, b: ReplyView)
    ensures
        after_replies(r, seq![a]) == next_resolution(r, a),
        after_replies(r, seq![a, b]) == next_resolution(next_resolution(r, a), b),
{
    let one = seq![a];
    let two = seq![a, b];
    assert(one.drop_last() =~= Seq::<ReplyView>::empty());
    assert(after_replies(r, one.drop_last()) == r);
    assert(one.last() == a);
    assert(two.drop_last() =~= one);
    assert(two.last() == b);
}

/// A resolution that is done or has failed stays as it is, whatever is
/// handed in.
pub proof fn lemma_resolution_rests(r: ResolutionView, replies: Seq<ReplyView>)
    requires
        request_of(r.stage) is None,
    ensures
        after_replies(r, replies) == r,
    decreases replies.len(),
{
    if replies.len() > 0 {
        lemma_resolution_rests(r, replies.drop_last());
    }
}

/// While the changelog is read, each line moves the scan on; the record is
/// complete as soon as the scan has finished.
proof fn lemma_read_lines(
    r: ResolutionView,
    url: Seq<char>,
    project: Seq<char>,
    version: Seq<char>,
    scan: Scan,
    lines: Seq<Seq<char>>,
)
    requires
        r.stage == (StageView::Changelog { url, project, version, scan }),
        scan.phase != Phase::Finished,
    ensures
        after_replies(r, line_replies(lines)).stage == (if scan_lines(scan, lines).phase
            == Phase::Finished {
            stage_done(url, project, version, scan_lines(scan, lines).text)
        } else {
            StageView::Changelog { url, project, version, scan: scan_lines(scan, lines) }
        }),
    decreases lines.len(),
{
    if lines.len() > 0 {
        let front = lines.drop_last();
        lemma_read_lines(r, url, project, version, scan, front);
        assert(line_replies(lines).drop_last() =~= line_replies(front));
        assert(line_replies(lines).last() == ReplyView::Text(lines.last()));
    }
}

/// Once the URL and the version are in, reading the whole changelog ends
/// with the release that `release_of` describes.
proof fn lemma_read_changelog(
    r: ResolutionView,
    url: Seq<char>,
    version: Seq<char>,
    lines: Seq<Seq<char>>,
)
    requires
        last_segment(url, '/').len() > 0,
        r.stage == stage_with_version(r.loose, url, project_name(url), version),
    ensures
        after_replies(r, line_replies(lines).push(ReplyView::End)).stage == final_stage(
            release_of(r.loose, url, version, lines),
        ),
{
    let replies = line_replies(lines).push(ReplyView::End);
    assert(replies.drop_last() =~= line_replies(lines));
    match r.stage {
        StageView::Changelog { url, project, version, scan } => {
            lemma_read_lines(r, url, project, version, scan, lines);
            lemma_scan_lines(lines, scan.pattern);
        },
        _ => {
            lemma_resolution_rests(r, replies);
        },
    }
}

/// The resolution of a given version: after the remote URL, the lines of
/// the changelog and its end were handed in, the resolution rests with the
/// release that `release_of` describes.
pub proof fn lemma_resolution_of_version(
    loose: bool,
    url: Seq<char>,
    version: Seq<char>,
    lines: Seq<Seq<char>>,
)
    ensures
        after_replies(
            resolution_start(loose, Some(version)),
            seq![ReplyView::Text(url)] + line_replies(lines).push(ReplyView::End),
        ).stage == final_stage(release_of(loose, url, version, lines)),
{
    let start = resolution_start(loose, Some(version));
    let first = seq![ReplyView::Text(url)];
    let rest = line_replies(lines).push(ReplyView::End);
    lemma_after_replies_split(start, first, rest);
    lemma_after_first_replies(start, ReplyView::Text(url), ReplyView::End);
    let r = after_replies(start, first);
    if last_segment(url, '/').len() == 0 {
        lemma_resolution_rests(r, rest);
    } else {
        lemma_read_changelog(r, url, version, lines);
    }
}

/// The resolution of the latest tag: after the remote URL, the tag, the
/// lines of the changelog and its end were handed in, the resolution rests
/// with the release that `release_of` describes for that tag.
pub proof fn lemma_resolution_of_latest_tag(
    loose: bool,
    url: Seq<char>,
    tag: Seq<char>,
    lines: Seq<Seq<char>>,
)
    ensures
        after_replies(
            resolution_start(loose, None),
            seq![ReplyView::Text(url), ReplyView::Text(tag)] + line_replies(lines).push(
                ReplyView::End,
            ),
        ).stage == final_stage(release_of(loose, url, tag, lines)),
{
    let start = resolution_start(loose, None);
    let first = seq![ReplyView::Text(url), ReplyView::Text(tag)];
    let rest = line_replies(lines).push(ReplyView::End);
    lemma_after_replies_split(start, first, rest);
    lemma_after_first_replies(start, ReplyView::Text(url), ReplyView::Text(tag));
    let r = after_replies(start, first);
    if last_segment(url, '/').len() == 0 {
        lemma_resolution_rests(r, rest);
    } else {
        lemma_read_changelog(r, url, tag, lines);
    }
}

/// Without a given version and without a tag there is no release: where
/// the backend fails on the query for the latest tag, the resolution fails
/// with a `CommandError` that holds the backend's diagnostic, and rests
/// there.
pub proof fn lemma_missing_tag_fails(
    loose: bool,
    url: Seq<char>,
    diagnostic: Seq<char>,
    further: Seq<ReplyView>,
)
    requires
        last_segment(url, '/').len() > 0,
    ensures
        after_replies(
            resolution_start(loose, None),
            seq![ReplyView::Text(url), ReplyView::Failure(diagnostic)] + further,
        ).stage == StageView::Failed(ReleaseErrorView::CommandError(diagnostic)),
{
    let start = resolution_start(loose, None);
    let first = seq![ReplyView::Text(url), ReplyView::Failure(diagnostic)];
    lemma_after_replies_split(start, first, further);
    lemma_after_first_replies(start, ReplyView::Text(url), ReplyView::Failure(diagnostic));
    lemma_resolution_rests(after_replies(start, first), further);
}

/// A record is never without a version: whatever is handed in, a
/// resolution that starts afresh and ends with a record holds a version
/// that is not empty.
pub proof fn lemma_record_has_version(
    loose: bool,
    explicit: Option<Seq<char>>,
    replies: Seq<ReplyView>,
)
    ensures
        after_replies(resolution_start(loose, explicit), replies).stage matches StageView::Done(
            info,
        ) ==> info.version.len() > 0,
{
    lemma_version_is_kept(loose, explicit, replies);
}

/// Whatever is handed in, the version that a resolution carries while it
/// reads the changelog, and the one in its record, is not empty.
proof fn lemma_version_is_kept(loose: bool, explicit: Option<Seq<char>>, replies: Seq<ReplyView>)
    ensures
        match after_replies(resolution_start(loose, explicit), replies).stage {
            StageView::Changelog { version, .. } => version.len() > 0,
            StageView::Done(info) => info.version.len() > 0,
            _ => true,
        },
        after_replies(resolution_start(loose, explicit), replies).loose == loose,
        after_replies(resolution_start(loose, explicit), replies).explicit == explicit,
    decreases replies.len(),
{
    if replies.len() > 0 {
        lemma_version_is_kept(loose, explicit, replies.drop_last());
    }
}

/// How far a resolution has come.
enum Stage {
    Url,
    Tag { url: String, project: String },
    Changelog { url: String, project: String, version: String, scanner: SectionScanner },
    Done(ReleaseInfo),
    Failed(ReleaseError),
}

impl View for Stage {
    type V = StageView;

    closed spec fn view(&self) -> StageView {
        match self {
            Stage::Url => StageView::Url,
            Stage::Tag { url, project } => StageView::Tag { url: url@, project: project@ },
            Stage::Changelog { url, project, version, scanner } => StageView::Changelog {
                url: url@,
                project: project@,
                version: version@,
                scan: scanner@,
            },
            Stage::Done(info) => StageView::Done(info@),
            Stage::Failed(e) => StageView::Failed(e@),
        }
    }
}

/// The resolution of one release: a state that asks for one thing at a
/// time and moves on with each reply, until the record is complete or the
/// resolution has failed.
pub struct Resolution {
    loose: bool,
    explicit: Option<String>,
    stage: Stage,
}

impl View for Resolution {
    type V = ResolutionView;

    closed spec fn view(&self) -> ResolutionView {
        ResolutionView {
            loose: self.loose,
            explicit: match self.explicit {
                Some(v) => Some(v@),
                None => None,
            },
            stage: self.stage@,
        }
    }
}

/// The stage reached once the version is known.
fn with_version(loose: bool, url: String, project: String, version: String) -> (s: Stage)
    ensures
        s@ == stage_with_version(loose, url@, project@, version@),
{
    match changelog_version(loose, version.as_str()) {
        Err(e) => Stage::Failed(e),
        Ok(lookup) => match SectionScanner::new(lookup.as_str()) {
            Err(e) => Stage::Failed(e),
            Ok(scanner) => Stage::Changelog { url, project, version, scanner },
        },
    }
}

/// The stage reached once the remote URL is known.
fn with_url(loose: bool, explicit: &Option<String>, url: String) -> (s: Stage)
    ensures
        s@ == stage_with_url(
            loose,
            match *explicit {
                Some(v) => Some(v@),
                None => None,
            },
            url@,
        ),
{
    match get_project_name(url.as_str()) {
        None => Stage::Failed(ReleaseError::MissingProjectName),
        Some(project) => match explicit {
            Some(version) => with_version(loose, url, project, version.clone()),
            None => Stage::Tag { url, project },
        },
    }
}

impl Resolution {
    /// The version that a resolution carries while it reads the changelog,
    /// and the one in its record, is not empty.
    #[verifier::type_invariant]
    spec fn carries_a_version(self) -> bool {
        match self.stage@ {
            StageView::Changelog { version, .. } => version.len() > 0,
            StageView::Done(info) => info.version.len() > 0,
            _ => true,
        }
    }

    /// What the caller has to fetch next; `None` once the resolution is
    /// done or has failed.
    pub fn request(&self) -> (r: Option<Request>)
        ensures
            r == request_of(self@.stage),
    {
        match &self.stage {
            Stage::Url => Some(Request::RemoteUrl),
            Stage::Tag { .. } => Some(Request::LatestTag),
            Stage::Changelog { .. } => Some(Request::ChangelogLine),
            Stage::Done(_) => None,
            Stage::Failed(_) => None,
        }
    }

    /// Moves on with what the caller found.
    pub fn step(self, reply: Reply) -> (r: Resolution)
        ensures
            r@ == next_resolution(self@, reply@),
    {
        proof {
            use_type_invariant(&self);
        }
        let Resolution { loose, explicit, stage } = self;
        let next = match stage {
            Stage::Url => match reply {
                Reply::Text(url) => with_url(loose, &explicit, url),
                Reply::End => Stage::Failed(ReleaseError::CommandError(NO_OUTPUT.to_owned())),
                Reply::Failure(m) => Stage::Failed(ReleaseError::CommandError(m)),
            },
            Stage::Tag { url, project } => match reply {
                Reply::Text(tag) => with_version(loose, url, project, tag),
                Reply::End => Stage::Failed(ReleaseError::CommandError(NO_OUTPUT.to_owned())),
                Reply::Failure(m) => Stage::Failed(ReleaseError::CommandError(m)),
            },
            Stage::Changelog { url, project, version, scanner } => match reply {
                Reply::Text(line) => {
                    let mut scanner = scanner;
                    if scanner.feed(line.as_str()) {
                        Stage::Changelog { url, project, version, scanner }
                    } else {
                        Stage::Done(
                            ReleaseInfo { project, url, version, changelog: scanner.into_text() },
                        )
                    }
                },
                Reply::End => Stage::Done(
                    ReleaseInfo { project, url, version, changelog: scanner.into_text() },
                ),
                Reply::Failure(m) => Stage::Failed(ReleaseError::IoError(m)),
            },
            Stage::Done(info) => Stage::Done(info),
            Stage::Failed(e) => Stage::Failed(e),
        };
        Resolution { loose, explicit, stage: next }
    }

    /// The result of the resolution: the record, or why there is none;
    /// `None` while the resolution still asks for something. A record
    /// always holds a version.
    pub fn outcome(self) -> (r: Option<Result<ReleaseInfo, ReleaseError>>)
        ensures
            match self@.stage {
                StageView::Done(info) => r matches Some(Ok(i)) && i@ == info,
                StageView::Failed(error) => r matches Some(Err(e)) && e@ == error,
                _ => r is None,
            },
            r matches Some(Ok(i)) ==> i.version@.len() > 0,
    {
        proof {
            use_type_invariant(&self);
        }
        match self.stage {
            Stage::Done(info) => Some(Ok(info)),
            Stage::Failed(e) => Some(Err(e)),
            _ => None,
        }
    }
}

/// A project: where its repository lies, how its changelog is called, and
/// whether any tag is taken for a version.
#[derive(Debug, PartialEq, Eq)]
pub struct Project {
    pub path: String,
    pub changelog: String,
    pub loose: bool,
}

/// A `Project` with its texts as sequences of characters.
pub struct ProjectView {
    pub path: Seq<char>,
    pub changelog: Seq<char>,
    pub loose: bool,
}

impl View for Project {
    type V = ProjectView;

    open spec fn view(&self) -> ProjectView {
        ProjectView { path: self.path@, changelog: self.changelog@, loose: self.loose }
    }
}

impl Project {
    /// A project at `path`, with the changelog `NEWS.md` and strict
    /// versions.
    pub fn new(path: &str) -> (p: Project)
        ensures
            p@ == (ProjectView { path: path@, changelog: "NEWS.md"@, loose: false }),
    {
        Project { path: path.to_owned(), changelog: "NEWS.md".to_owned(), loose: false }
    }

    /// Names the changelog file.
    pub fn set_changelog(&mut self, filename: &str)
        ensures
            final(self)@ == (ProjectView { changelog: filename@, ..old(self)@ }),
    {
        self.changelog = filename.to_owned();
    }

    /// Chooses whether tags are taken as they are (`true`) or must hold a
    /// semantic version (`false`).
    pub fn set_loose(&mut self, loose: bool)
        ensures
            final(self)@ == (ProjectView { loose, ..old(self)@ }),
    {
        self.loose = loose;
    }

    /// Starts the resolution of the project's release: of `version` where
    /// one is given, of the latest tag otherwise.
    pub fn release_info(&self, version: &Option<String>) -> (r: Resolution)
        ensures
            r@ == resolution_start(
                self.loose,
                match *version {
                    Some(v) => Some(v@),
                    None => None,
                },
            ),
    {
        Resolution { loose: self.loose, explicit: version.clone(), stage: Stage::Url }
    }
}

} // verus!
