//! The changelog: finding the section of one version and taking its body.
//!
//! A changelog is a list of lines. The section of a version starts behind
//! the first line that is a heading for that version (`## [VERSION] -
//! YYYY-MM-DD`) and ends before the next line that begins with `## `, or at
//! the end of the document.
use crate::error::ReleaseError;
use crate::error::text_outcome;
use crate::error::ReleaseErrorView;
use crate::pattern::compile;
use crate::pattern::is_match;
use crate::pattern::regex_compiles;
use crate::pattern::regex_is_match;
use crate::pattern::regex_pattern;
use crate::text::chars_of;
use crate::text::first_true;
use crate::text::has_prefix;
use crate::text::lemma_first_true;
use crate::text::lemma_first_true_unique;
use crate::text::starts_with;
use crate::text::string_of;
use crate::text::without_suffix;
use regex::Regex;
use vstd::prelude::*;
use vstd::string::StringExecFns;

verus! {

/// What stands before the version in the heading expression: the start of
/// the line, two hashes, white space and an opening square bracket.
pub const HEADING_START: &'static str = "^##\\s+\\[";

/// What stands behind the version in the heading expression: the closing
/// square bracket, a dash between white space, a date of four, two and two
/// digits, and the end of the line.
pub const HEADING_END: &'static str = "]\\s+-\\s+[\\d]{4}-[\\d]{2}-[\\d]{2}$";

/// What every top-level heading begins with.
pub const HEADING_MARKER: &'static str = "## ";

/// The regular expression that recognises the heading of `version`. The
/// version goes into the expression as it is written.
pub open spec fn heading_pattern(version: Seq<char>) -> Seq<char> {
    HEADING_START@ + version + HEADING_END@
}

/// What every top-level heading begins with, as a sequence of characters.
pub open spec fn heading_marker() -> Seq<char> {
    HEADING_MARKER@
}

/// For each line, whether it is a heading for `pattern`.
pub open spec fn heading_flags(lines: Seq<Seq<char>>, pattern: Seq<char>) -> Seq<bool> {
    Seq::new(lines.len(), |i: int| regex_is_match(pattern, lines[i]))
}

/// For each line, whether it begins like a top-level heading.
pub open spec fn marker_flags(lines: Seq<Seq<char>>) -> Seq<bool> {
    Seq::new(lines.len(), |i: int| has_prefix(lines[i], heading_marker()))
}

/// The lines written one after the other, each followed by a newline.
pub open spec fn body_text(lines: Seq<Seq<char>>) -> Seq<char>
    decreases lines.len(),
{
    if lines.len() == 0 {
        Seq::empty()
    } else {
        body_text(lines.drop_last()) + lines.last() + seq!['\n']
    }
}

/// The index of the first heading for `pattern`, or the number of lines
/// where there is none.
pub open spec fn section_start(lines: Seq<Seq<char>>, pattern: Seq<char>) -> int {
    first_true(heading_flags(lines, pattern), 0)
}

/// The index of the first top-level heading behind the section's own, or
/// the number of lines where none follows.
pub open spec fn section_end(lines: Seq<Seq<char>>, pattern: Seq<char>) -> int {
    first_true(marker_flags(lines), section_start(lines, pattern) + 1)
}

/// The body of the section that `pattern` selects: the lines between its
/// heading and the next top-level heading, each followed by a newline; empty
/// where no line is a heading for `pattern`.
pub open spec fn section_text(lines: Seq<Seq<char>>, pattern: Seq<char>) -> Seq<char> {
    if section_start(lines, pattern) >= lines.len() {
        Seq::empty()
    } else {
        body_text(lines.subrange(section_start(lines, pattern) + 1, section_end(lines, pattern)))
    }
}

/// Where the section lies: its heading is the first line that is a
/// heading for `pattern`, no line of its body begins like a top-level
/// heading, and it ends at the first line behind its heading that does, or
/// at the end of the document.
pub proof fn lemma_section_bounds(lines: Seq<Seq<char>>, pattern: Seq<char>)
    ensures
        0 <= section_start(lines, pattern) <= lines.len(),
        forall|k: int|
            0 <= k < section_start(lines, pattern) ==> !regex_is_match(pattern, #[trigger] lines[k]),
        section_start(lines, pattern) < lines.len() ==> {
            &&& regex_is_match(pattern, lines[section_start(lines, pattern)])
            &&& section_start(lines, pattern) < section_end(lines, pattern) <= lines.len()
            &&& forall|k: int|
                section_start(lines, pattern) < k < section_end(lines, pattern) ==> !has_prefix(
                    #[trigger] lines[k],
                    heading_marker(),
                )
            &&& section_end(lines, pattern) < lines.len() ==> has_prefix(
                lines[section_end(lines, pattern)],
                heading_marker(),
            )
        },
{
    let headings = heading_flags(lines, pattern);
    let markers = marker_flags(lines);
    let start = section_start(lines, pattern);
    lemma_first_true(headings, 0);
    assert forall|k: int| 0 <= k < start implies !regex_is_match(pattern, #[trigger] lines[k]) by {
        assert(!headings[k]);
    }
    if start < lines.len() {
        let end = section_end(lines, pattern);
        lemma_first_true(markers, start + 1);
        assert(headings[start]);
        assert forall|k: int| start < k < end implies !has_prefix(
            #[trigger] lines[k],
            heading_marker(),
        ) by {
            assert(!markers[k]);
        }
        if end < lines.len() {
            assert(markers[end]);
        }
    }
}

/// What the search for the section of `version` in `lines` gives: the
/// body of the section, or `InvalidVersion` where the heading expression for
/// the version is not accepted as a regular expression.
pub open spec fn extraction_of(lines: Seq<Seq<char>>, version: Seq<char>) -> Result<
    Seq<char>,
    ReleaseErrorView,
> {
    if regex_compiles(heading_pattern(version)) {
        Ok(section_text(lines, heading_pattern(version)))
    } else {
        Err(ReleaseErrorView::InvalidVersion)
    }
}

/// Extraction can be repeated: two extractions from the same lines for the
/// same version give the same text, or the same error.
pub proof fn lemma_extraction_repeats(
    lines: Seq<Seq<char>>,
    version: Seq<char>,
    first: Result<Seq<char>, ReleaseErrorView>,
    second: Result<Seq<char>, ReleaseErrorView>,
)
    requires
        first == extraction_of(lines, version),
        second == extraction_of(lines, version),
    ensures
        first == second,
{
}

/// For each character, whether it ends a line.
pub open spec fn newline_flags(text: Seq<char>) -> Seq<bool> {
    Seq::new(text.len(), |i: int| text[i] == '\n')
}

/// The lines of `text` from position `from` on. A line ends with a newline,
/// or with a carriage return and a newline, neither of which belongs to it;
/// what follows the last newline is a line too unless it is empty.
pub open spec fn lines_from(text: Seq<char>, from: int) -> Seq<Seq<char>>
    decreases text.len() - from,
    via lines_from_decreases
{
    if from < 0 || from >= text.len() {
        Seq::empty()
    } else if first_true(newline_flags(text), from) >= text.len() {
        seq![text.subrange(from, text.len() as int)]
    } else {
        seq![
            without_suffix(
                text.subrange(from, first_true(newline_flags(text), from)),
                seq!['\r'],
            ),
        ] + lines_from(text, first_true(newline_flags(text), from) + 1)
    }
}

#[via_fn]
proof fn lines_from_decreases(text: Seq<char>, from: int) {
    if 0 <= from < text.len() {
        lemma_first_true(newline_flags(text), from);
    }
}

/// The lines of a document.
pub open spec fn lines_of(text: Seq<char>) -> Seq<Seq<char>> {
    lines_from(text, 0)
}

/// Where a scan of the changelog stands.
#[derive(Clone, Copy, Debug, PartialEq, Eq, Structural)]
pub enum Phase {
    /// The heading of the version has not been seen yet.
    Searching,
    /// The heading has been seen; lines are being taken into the body.
    Collecting,
    /// The next top-level heading has been seen; the body is complete.
    Finished,
}

/// A scan as plain values: the pattern it looks for, its phase, and the
/// body gathered so far.
pub struct Scan {
    pub pattern: Seq<char>,
    pub phase: Phase,
    pub text: Seq<char>,
}

/// The scan before any line was read.
pub open spec fn scan_start(pattern: Seq<char>) -> Scan {
    Scan { pattern, phase: Phase::Searching, text: Seq::empty() }
}

/// The scan after one more line, `heading` telling whether that line is a
/// heading for the scan's pattern.
pub open spec fn scan_step(s: Scan, line: Seq<char>, heading: bool) -> Scan {
    match s.phase {
        Phase::Searching => if heading {
            Scan { phase: Phase::Collecting, ..s }
        } else {
            s
        },
        Phase::Collecting => if has_prefix(line, heading_marker()) {
            Scan { phase: Phase::Finished, ..s }
        } else {
            Scan { text: s.text + line + seq!['\n'], ..s }
        },
        Phase::Finished => s,
    }
}

/// The scan after one more line.
pub open spec fn scan_line(s: Scan, line: Seq<char>) -> Scan {
    scan_step(s, line, regex_is_match(s.pattern, line))
}

/// The scan after the given lines, read in order.
pub open spec fn scan_lines(s: Scan, lines: Seq<Seq<char>>) -> Scan
    decreases lines.len(),
{
    if lines.len() == 0 {
        s
    } else {
        scan_line(scan_lines(s, lines.drop_last()), lines.last())
    }
}

/// A finished scan reads no further: the lines behind the one that finished
/// it change nothing.
pub proof fn lemma_scan_finished(s: Scan, lines: Seq<Seq<char>>, n: int)
    requires
        0 <= n <= lines.len(),
        scan_lines(s, lines.subrange(0, n)).phase == Phase::Finished,
    ensures
        scan_lines(s, lines) == scan_lines(s, lines.subrange(0, n)),
    decreases lines.len(),
{
    if n == lines.len() {
        assert(lines.subrange(0, n) =~= lines);
    } else {
        assert(lines.drop_last().subrange(0, n) =~= lines.subrange(0, n));
        lemma_scan_finished(s, lines.drop_last(), n);
    }
}

/// Reading a document line by line gathers the body of the section: after
/// all lines the scan holds `section_text`, it is still searching exactly
/// when no line is a heading for the pattern, and it is finished exactly
/// when a top-level heading follows the section.
pub proof fn lemma_scan_lines(lines: Seq<Seq<char>>, pattern: Seq<char>)
    ensures
        scan_lines(scan_start(pattern), lines).pattern == pattern,
        scan_lines(scan_start(pattern), lines).text == section_text(lines, pattern),
        scan_lines(scan_start(pattern), lines).phase == (if section_start(lines, pattern)
            >= lines.len() {
            Phase::Searching
        } else if section_end(lines, pattern) >= lines.len() {
            Phase::Collecting
        } else {
            Phase::Finished
        }),
    decreases lines.len(),
{
    let n = lines.len() as int;
    let hf = heading_flags(lines, pattern);
    let mf = marker_flags(lines);
    if n == 0 {
    } else {
        let front = lines.drop_last();
        let last = lines.last();
        let hf0 = heading_flags(front, pattern);
        let mf0 = marker_flags(front);
        let start0 = section_start(front, pattern);
        lemma_scan_lines(front, pattern);
        lemma_first_true(hf0, 0);
        assert forall|k: int| 0 <= k < n - 1 implies hf[k] == hf0[k] && mf[k] == mf0[k] by {
            assert(front[k] == lines[k]);
        }
        if start0 < n - 1 {
            lemma_first_true_unique(hf, 0, start0);
            let end0 = section_end(front, pattern);
            lemma_first_true(mf0, start0 + 1);
            if end0 < n - 1 {
                lemma_first_true_unique(mf, start0 + 1, end0);
                assert(lines.subrange(start0 + 1, end0) =~= front.subrange(start0 + 1, end0));
            } else if has_prefix(last, heading_marker()) {
                lemma_first_true_unique(mf, start0 + 1, n - 1);
                assert(lines.subrange(start0 + 1, n - 1) =~= front.subrange(start0 + 1, n - 1));
            } else {
                lemma_first_true_unique(mf, start0 + 1, n);
                assert(lines.subrange(start0 + 1, n).drop_last() =~= front.subrange(
                    start0 + 1,
                    n - 1,
                ));
            }
        } else if regex_is_match(pattern, last) {
            lemma_first_true_unique(hf, 0, n - 1);
            assert(lines.subrange(n, n) =~= Seq::<Seq<char>>::empty());
        } else {
            lemma_first_true_unique(hf, 0, n);
        }
    }
}

/// A scan in progress: the compiled heading matcher, the phase, and the
/// body gathered so far.
pub struct SectionScanner {
    matcher: Regex,
    phase: Phase,
    text: String,
}

impl View for SectionScanner {
    type V = Scan;

    closed spec fn view(&self) -> Scan {
        Scan { pattern: regex_pattern(self.matcher), phase: self.phase, text: self.text@ }
    }
}

/// Writes the heading expression for `version`.
pub fn heading_pattern_for(version: &str) -> (p: String)
    ensures
        p@ == heading_pattern(version@),
{
    HEADING_START.to_owned().concat(version).concat(HEADING_END)
}

impl SectionScanner {
    /// A scan for the section of `version`, with no line read yet. Fails
    /// with `InvalidVersion` exactly when the heading expression for the
    /// version is not accepted as a regular expression.
    pub fn new(version: &str) -> (r: Result<SectionScanner, ReleaseError>)
        ensures
            if regex_compiles(heading_pattern(version@)) {
                r matches Ok(s) && s@ == scan_start(heading_pattern(version@))
            } else {
                r matches Err(e) && e@ == ReleaseErrorView::InvalidVersion
            },
    {
        let pattern = heading_pattern_for(version);
        match compile(pattern.as_str()) {
            Ok(matcher) => Ok(SectionScanner { matcher, phase: Phase::Searching, text: String::new() }),
            Err(_) => Err(ReleaseError::InvalidVersion),
        }
    }

    /// Takes one more line, `heading` telling whether the line is a heading
    /// for the scan's pattern. Returns whether the scan wants further lines.
    pub fn advance(&mut self, line: &str, heading: bool) -> (more: bool)
        ensures
            final(self)@ == scan_step(old(self)@, line@, heading),
            more == (final(self)@.phase != Phase::Finished),
    {
        match self.phase {
            Phase::Searching => {
                if heading {
                    self.phase = Phase::Collecting;
                }
                true
            },
            Phase::Collecting => {
                if starts_with(line, HEADING_MARKER) {
                    self.phase = Phase::Finished;
                    false
                } else {
                    self.text.append(line);
                    self.text.push('\n');
                    assert(self.text@ =~= old(self).text@ + line@ + seq!['\n']);
                    true
                }
            },
            Phase::Finished => false,
        }
    }

    /// Takes one more line of the document. Returns whether the scan wants
    /// further lines.
    pub fn feed(&mut self, line: &str) -> (more: bool)
        ensures
            final(self)@ == scan_line(old(self)@, line@),
            more == (final(self)@.phase != Phase::Finished),
    {
        let heading = match self.phase {
            Phase::Searching => is_match(&self.matcher, line),
            _ => false,
        };
        self.advance(line, heading)
    }

    /// Where the scan stands.
    pub fn phase(&self) -> (p: Phase)
        ensures
            p == self@.phase,
    {
        self.phase
    }

    /// Ends the scan and hands out the body gathered so far.
    pub fn into_text(self) -> (t: String)
        ensures
            t@ == self@.text,
    {
        self.text
    }
}

/// The body of the section of `version` in a changelog given as its lines.
///
/// Returns the lines between the first heading for the version and the next
/// top-level heading, each followed by a newline; the empty string where the
/// version has no heading. Fails with `InvalidVersion` exactly when the
/// heading expression for the version is not accepted as a regular
/// expression.
pub fn get_repo_changelog(lines: &Vec<String>, version: &str) -> (r: Result<String, ReleaseError>)
    ensures
        text_outcome(r) == extraction_of(lines.deep_view(), version@),
{
    let mut scanner = match SectionScanner::new(version) {
        Ok(s) => s,
        Err(e) => {
            return Err(e);
        },
    };
    let ghost pattern = heading_pattern(version@);
    let ghost all = lines.deep_view();
    let mut i: usize = 0;
    let mut more = true;
    while more && i < lines.len()
        invariant
            i <= lines.len(),
            all == lines.deep_view(),
            scanner@ == scan_lines(scan_start(pattern), all.subrange(0, i as int)),
            more == (scanner@.phase != Phase::Finished),
        decreases lines.len() - i,
    {
        proof {
            assert(all.subrange(0, i + 1).drop_last() =~= all.subrange(0, i as int));
            assert(all.subrange(0, i + 1).last() == lines[i as int]@);
        }
        more = scanner.feed(lines[i].as_str());
        i += 1;
    }
    proof {
        if more {
            assert(all.subrange(0, i as int) =~= all);
        } else {
            lemma_scan_finished(scan_start(pattern), all, i as int);
        }
        lemma_scan_lines(all, pattern);
    }
    Ok(scanner.into_text())
}

/// Splits a document into its lines.
pub fn split_lines(document: &str) -> (lines: Vec<String>)
    ensures
        lines.deep_view() == lines_of(document@),
{
    let chars = chars_of(document);
    let n = chars.len();
    let ghost text = document@;
    let ghost flags = newline_flags(text);
    let mut lines: Vec<String> = Vec::new();
    let mut start: usize = 0;
    let mut i: usize = 0;
    while i < n
        invariant
            start <= i <= n,
            n == chars.len(),
            chars@ == text,
            flags == newline_flags(text),
            forall|k: int| start <= k < i ==> !flags[k],
            lines.deep_view() + lines_from(text, start as int) == lines_of(text),
        decreases n - i,
    {
        if chars[i] == '\n' {
            let end = if i > start && chars[i - 1] == '\r' {
                i - 1
            } else {
                i
            };
            let line = string_of(&chars, start, end);
            proof {
                lemma_first_true_unique(flags, start as int, i as int);
                let raw = text.subrange(start as int, i as int);
                if i > start && chars[i - 1] == '\r' {
                    assert(raw.subrange(raw.len() - 1, raw.len() as int) =~= seq!['\r']);
                    assert(raw.subrange(0, raw.len() - 1) =~= line@);
                } else if raw.len() >= 1 {
                    assert(raw.subrange(raw.len() - 1, raw.len() as int)[0] == raw[raw.len() - 1]);
                }
                assert(line@ == without_suffix(raw, seq!['\r']));
            }
            let ghost before = lines.deep_view();
            lines.push(line);
            proof {
                assert(lines.deep_view() =~= before.push(line@));
                assert(before + (seq![line@] + lines_from(text, i + 1)) =~= before.push(line@)
                    + lines_from(text, i + 1));
            }
            start = i + 1;
        }
        i += 1;
    }
    if start < n {
        let line = string_of(&chars, start, n);
        let ghost before = lines.deep_view();
        lines.push(line);
        proof {
            lemma_first_true_unique(flags, start as int, n as int);
            assert(lines.deep_view() =~= before.push(line@));
            assert(before + seq![line@] =~= before.push(line@));
        }
    } else {
        proof {
            assert(lines.deep_view() + Seq::<Seq<char>>::empty() =~= lines.deep_view());
        }
    }
    lines
}

/// The body of the section of `version` in a changelog given as one text.
///
/// The text is split into lines, and the result is that of
/// `get_repo_changelog` on them.
pub fn extract_section(document: &str, version: &str) -> (r: Result<String, ReleaseError>)
    ensures
        text_outcome(r) == extraction_of(lines_of(document@), version@),
{
    let lines = split_lines(document);
    get_repo_changelog(&lines, version)
}

} // verus!
