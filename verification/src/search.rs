//! The search operation: which lines of a file match, where, and how each
//! matching line divides into plain and highlighted parts.

use vstd::prelude::*;
use vstd::string::StringSliceAdditionalSpecFns;
use vstd::utf8::{decode_utf8, encode_utf8_decode_utf8, valid_utf8};
use crate::command::SearchArgs;
use crate::corpus::{CorpusFile, ReadFailure};
use crate::filter::{
    decision,
    entry_name,
    file_name_of,
    filter_entry,
    search_policy,
    EntryDecision,
    FilterPolicy,
    WalkEntry,
};
use crate::lines::{line_bytes, line_text, line_within, lines_of, scan_lines, LineRange};
use crate::pattern::{
    regex_compiled,
    regex_find_iter,
    regex_is_match,
    CompiledPattern,
    PatternError,
    PatternKind,
    PatternView,
};
use crate::span::{kept_spans, resume_point, span_fits, spans_ordered, MatchSpan};
use crate::text::{copy_str, last_index_of};
use crate::wildcard::{extract_path_and_pattern, wildcard_regex};

verus! {

/// A part `[start, end)` of a line, either matched text to highlight or the
/// plain text between matches.
#[derive(Clone, Copy, Debug, PartialEq, Eq, Structural)]
pub struct Segment {
    pub start: usize,
    pub end: usize,
    pub highlighted: bool,
}

/// The segments up to the end of the last span: before each span the plain
/// text since the span before it, then the span itself.
pub open spec fn leading_segments(spans: Seq<MatchSpan>) -> Seq<Segment>
    decreases spans.len(),
{
    if spans.len() == 0 {
        Seq::empty()
    } else {
        let before = spans.drop_last();
        let span = spans.last();
        leading_segments(before).push(
            Segment { start: resume_point(before) as usize, end: span.start, highlighted: false },
        ).push(Segment { start: span.start, end: span.end, highlighted: true })
    }
}

/// The segments of a line of `len` bytes: the leading segments, then the
/// plain text after the last span.
pub open spec fn line_segments(spans: Seq<MatchSpan>, len: usize) -> Seq<Segment> {
    leading_segments(spans).push(
        Segment { start: resume_point(spans) as usize, end: len, highlighted: false },
    )
}

/// The bytes that the segments cover, joined in order.
pub open spec fn joined(bytes: Seq<u8>, segments: Seq<Segment>) -> Seq<u8>
    decreases segments.len(),
{
    if segments.len() == 0 {
        Seq::empty()
    } else {
        joined(bytes, segments.drop_last()) + bytes.subrange(
            segments.last().start as int,
            segments.last().end as int,
        )
    }
}

/// The highlighted segments, in order, as spans.
pub open spec fn highlighted_spans(segments: Seq<Segment>) -> Seq<MatchSpan>
    decreases segments.len(),
{
    if segments.len() == 0 {
        Seq::empty()
    } else {
        let before = highlighted_spans(segments.drop_last());
        let last = segments.last();
        if last.highlighted {
            before.push(MatchSpan { start: last.start, end: last.end })
        } else {
            before
        }
    }
}

proof fn lemma_leading_segments(bytes: Seq<u8>, spans: Seq<MatchSpan>)
    requires
        spans_ordered(spans, bytes),
    ensures
        joined(bytes, leading_segments(spans)) == bytes.take(resume_point(spans)),
        highlighted_spans(leading_segments(spans)) == spans,
        leading_segments(spans).len() == 2 * spans.len(),
        0 <= resume_point(spans) <= bytes.len(),
    decreases spans.len(),
{
    if spans.len() > 0 {
        let before = spans.drop_last();
        let span = spans.last();
        assert(span_fits(span, bytes));
        assert forall|i: int, j: int| 0 <= i < j < before.len() implies (#[trigger] before[i]).end
            <= (#[trigger] before[j]).start by {
            assert(before[i] == spans[i] && before[j] == spans[j]);
        }
        assert forall|i: int| 0 <= i < before.len() implies span_fits(
            #[trigger] before[i],
            bytes,
        ) by {
            assert(before[i] == spans[i]);
        }
        lemma_leading_segments(bytes, before);
        let floor = resume_point(before);
        if before.len() > 0 {
            assert(before.last() == spans[spans.len() - 2]);
            assert(spans[spans.len() - 2].end <= spans[spans.len() - 1].start);
        }
        let plain = Segment { start: floor as usize, end: span.start, highlighted: false };
        let marked = Segment { start: span.start, end: span.end, highlighted: true };
        let lead = leading_segments(before);
        let all = leading_segments(spans);
        assert(all == lead.push(plain).push(marked));
        assert(all.drop_last() == lead.push(plain));
        assert(lead.push(plain).drop_last() == lead);
        assert(joined(bytes, lead.push(plain)) == bytes.take(floor) + bytes.subrange(
            floor,
            span.start as int,
        ));
        assert(bytes.take(floor) + bytes.subrange(floor, span.start as int) == bytes.take(
            span.start as int,
        ));
        assert(bytes.take(span.start as int) + bytes.subrange(span.start as int, span.end as int)
            == bytes.take(span.end as int));
        assert(highlighted_spans(lead.push(plain)) == before);
        assert(before.push(span) == spans);
    }
}

/// The segments of a line rebuild it: joined in order they give the line
/// back, byte for byte, and the highlighted ones are exactly the spans.
pub proof fn lemma_segments_rebuild_line(bytes: Seq<u8>, spans: Seq<MatchSpan>)
    requires
        spans_ordered(spans, bytes),
        bytes.len() <= usize::MAX,
    ensures
        joined(bytes, line_segments(spans, bytes.len() as usize)) == bytes,
        highlighted_spans(line_segments(spans, bytes.len() as usize)) == spans,
{
    lemma_leading_segments(bytes, spans);
    let floor = resume_point(spans);
    let lead = leading_segments(spans);
    let tail = Segment { start: floor as usize, end: bytes.len() as usize, highlighted: false };
    assert(line_segments(spans, bytes.len() as usize).drop_last() == lead);
    assert(bytes.take(floor) + bytes.subrange(floor, bytes.len() as int) == bytes);
}

/// Divides a line of `len` bytes into segments around its spans.
pub fn segment_line(spans: &Vec<MatchSpan>, len: usize) -> (segments: Vec<Segment>)
    ensures
        segments@ == line_segments(spans@, len),
{
    let mut segments: Vec<Segment> = Vec::new();
    let mut floor: usize = 0;
    let mut i: usize = 0;
    while i < spans.len()
        invariant
            i <= spans.len(),
            segments@ == leading_segments(spans@.take(i as int)),
            floor == resume_point(spans@.take(i as int)),
        decreases spans.len() - i,
    {
        let span = spans[i];
        proof {
            let next = spans@.take(i + 1);
            assert(next.drop_last() == spans@.take(i as int));
            assert(next.last() == span);
        }
        segments.push(Segment { start: floor, end: span.start, highlighted: false });
        segments.push(Segment { start: span.start, end: span.end, highlighted: true });
        floor = span.end;
        i = i + 1;
    }
    proof {
        assert(spans@.take(spans.len() as int) == spans@);
    }
    segments.push(Segment { start: floor, end: len, highlighted: false });
    segments
}

/// What the search reports of one line.
#[derive(Debug)]
pub enum LineFinding {
    /// The line matches: its 1-based number, where it lies in the file, and
    /// the spans that match, left to right.
    Match { line_number: usize, line: LineRange, spans: Vec<MatchSpan> },
    /// The line is not valid text, and was skipped.
    DecodeError { line_number: usize, line: LineRange },
}

/// A finding with its spans as a sequence.
pub enum LineFindingView {
    Match { line_number: usize, line: LineRange, spans: Seq<MatchSpan> },
    DecodeError { line_number: usize, line: LineRange },
}

impl View for LineFinding {
    type V = LineFindingView;

    open spec fn view(&self) -> LineFindingView {
        match self {
            LineFinding::Match { line_number, line, spans } => LineFindingView::Match {
                line_number: *line_number,
                line: *line,
                spans: spans@,
            },
            LineFinding::DecodeError { line_number, line } => LineFindingView::DecodeError {
                line_number: *line_number,
                line: *line,
            },
        }
    }
}

/// The spans that a pattern matches in a line of text.
pub open spec fn spans_in(pattern: PatternView, text: Seq<char>, bytes: Seq<u8>) -> Seq<MatchSpan> {
    kept_spans(regex_find_iter(pattern.source, pattern.case_insensitive, text), bytes)
}

/// What the search reports of the line with the given number: a decode
/// error where the line is not valid text, a match with its spans where the
/// pattern matches, and nothing otherwise.
pub open spec fn finding_of(
    pattern: PatternView,
    content: Seq<u8>,
    line: LineRange,
    line_number: usize,
) -> Option<LineFindingView> {
    let bytes = line_bytes(content, line);
    if !valid_utf8(bytes) {
        Some(LineFindingView::DecodeError { line_number, line })
    } else if regex_is_match(pattern.source, pattern.case_insensitive, decode_utf8(bytes)) {
        Some(
            LineFindingView::Match {
                line_number,
                line,
                spans: spans_in(pattern, decode_utf8(bytes), bytes),
            },
        )
    } else {
        None
    }
}

/// The findings of the given lines, numbered from 1, in line order.
pub open spec fn findings_of(
    pattern: PatternView,
    content: Seq<u8>,
    lines: Seq<LineRange>,
) -> Seq<LineFindingView>
    decreases lines.len(),
{
    if lines.len() == 0 {
        Seq::empty()
    } else {
        let before = findings_of(pattern, content, lines.drop_last());
        match finding_of(pattern, content, lines.last(), lines.len() as usize) {
            Some(finding) => before.push(finding),
            None => before,
        }
    }
}

/// The views of a list of findings.
pub open spec fn finding_views(findings: Seq<LineFinding>) -> Seq<LineFindingView> {
    findings.map_values(|f: LineFinding| f@)
}

/// Searches one line of text: `None` where the pattern does not match it,
/// otherwise the matching spans, at least one, ordered and without
/// overlap.
pub fn search_line(pattern: &CompiledPattern, text: &str) -> (r: Option<Vec<MatchSpan>>)
    ensures
        r is Some <==> regex_is_match(pattern@.source, pattern@.case_insensitive, text@),
        r matches Some(spans) ==> spans@ == spans_in(pattern@, text@, text.spec_bytes())
            && spans_ordered(spans@, text.spec_bytes()) && spans.len() > 0,
{
    if pattern.is_match(text) {
        Some(pattern.find_spans(text))
    } else {
        None
    }
}

/// Searches a file's content line by line. A line that is not valid text
/// is reported with its number and skipped; the scan goes on with the next
/// line. Lines that do not match are not reported.
pub fn search_content(pattern: &CompiledPattern, content: &[u8]) -> (findings: Vec<LineFinding>)
    ensures
        finding_views(findings@) == findings_of(pattern@, content@, lines_of(content@)),
{
    let lines = scan_lines(content);
    let mut findings: Vec<LineFinding> = Vec::new();
    let mut i: usize = 0;
    while i < lines.len()
        invariant
            i <= lines.len(),
            lines@ == lines_of(content@),
            forall|k: int| 0 <= k < lines.len() ==> line_within(content@, 0, #[trigger] lines[k]),
            finding_views(findings@) == findings_of(pattern@, content@, lines@.take(i as int)),
        decreases lines.len() - i,
    {
        let line = lines[i];
        let line_number = i + 1;
        let ghost before = findings@;
        proof {
            let next = lines@.take(i + 1);
            assert(next.drop_last() == lines@.take(i as int));
            assert(next.last() == line);
            assert(line_within(content@, 0, line));
        }
        match line_text(content, line) {
            None => {
                findings.push(LineFinding::DecodeError { line_number, line });
                proof {
                    assert(finding_views(findings@) == finding_views(before).push(
                        findings@.last()@,
                    ));
                }
            },
            Some(text) => {
                proof {
                    encode_utf8_decode_utf8(text@);
                }
                match search_line(pattern, text) {
                    Some(spans) => {
                        findings.push(LineFinding::Match { line_number, line, spans });
                        proof {
                            assert(finding_views(findings@) == finding_views(before).push(
                                findings@.last()@,
                            ));
                        }
                    },
                    None => {},
                }
            },
        }
        i = i + 1;
    }
    proof {
        assert(lines@.take(lines.len() as int) == lines@);
    }
    findings
}

/// What a search works with: the directory to scan, the pattern that
/// file names must match, the pattern to look for in the lines, and the
/// policy of the walk.
pub struct SearchPlan {
    pub root: String,
    pub file_pattern: CompiledPattern,
    pub content_pattern: CompiledPattern,
    pub policy: FilterPolicy,
}

/// A search plan with its patterns as what they stand for.
pub struct SearchPlanView {
    pub root: Seq<char>,
    pub file_pattern: PatternView,
    pub content_pattern: PatternView,
    pub policy: FilterPolicy,
}

impl View for SearchPlan {
    type V = SearchPlanView;

    open spec fn view(&self) -> SearchPlanView {
        SearchPlanView {
            root: self.root@,
            file_pattern: self.file_pattern@,
            content_pattern: self.content_pattern@,
            policy: self.policy,
        }
    }
}

/// The plan that the arguments of a search state. The path splits at its
/// last `/` into the directory to scan and a file-name wildcard; the
/// content pattern is a regex, with case folded where asked for.
pub open spec fn planned(args: SearchArgs) -> SearchPlanView {
    let slash = last_index_of(args.path@, '/');
    SearchPlanView {
        root: args.path@.take(slash),
        file_pattern: PatternView {
            source: wildcard_regex(args.path@.skip(slash + 1)),
            case_insensitive: false,
        },
        content_pattern: PatternView {
            source: args.pattern@,
            case_insensitive: args.case_insensitive,
        },
        policy: FilterPolicy {
            include_hidden: args.hidden,
            max_depth: None,
            respect_ignore_files: false,
        },
    }
}

/// Whether a search can be set up from the arguments: the path holds a
/// `/`, and the regex engine accepts both patterns.
pub open spec fn search_is_valid(args: SearchArgs) -> bool {
    &&& args.path@.contains('/')
    &&& regex_compiled(planned(args).file_pattern.source, false) is Some
    &&& regex_compiled(args.pattern@, args.case_insensitive) is Some
}

/// The pattern that a search is refused for, where the path splits but
/// the regex engine rejects a pattern: the file-name pattern's regex
/// source where that is rejected, otherwise the content pattern.
pub open spec fn refused_pattern(args: SearchArgs) -> Seq<char> {
    if regex_compiled(planned(args).file_pattern.source, false) is None {
        planned(args).file_pattern.source
    } else {
        args.pattern@
    }
}

/// Sets a search up from its arguments. A path without `/` and a pattern
/// that the regex engine rejects are refused before any file is touched;
/// the error for a rejected pattern names that pattern.
pub fn plan_search(args: &SearchArgs) -> (r: Result<SearchPlan, PatternError>)
    ensures
        r is Ok <==> search_is_valid(*args),
        r matches Ok(plan) ==> plan@ == planned(*args),
        r matches Err(e) ==> (e is InvalidPathPattern <==> !args.path@.contains('/')),
        r matches Err(e) ==> (e matches PatternError::InvalidPattern { pattern, .. }
            ==> pattern@ == refused_pattern(*args)),
{
    let (root, file_regex) = match extract_path_and_pattern(args.path.as_str()) {
        Ok(parts) => parts,
        Err(e) => {
            return Err(e);
        },
    };
    let file_pattern = match CompiledPattern::compile(
        file_regex.as_str(),
        PatternKind::Regex,
        false,
    ) {
        Ok(pattern) => pattern,
        Err(e) => {
            return Err(e);
        },
    };
    let content_pattern = match CompiledPattern::compile(
        args.pattern.as_str(),
        PatternKind::Regex,
        args.case_insensitive,
    ) {
        Ok(pattern) => pattern,
        Err(e) => {
            return Err(e);
        },
    };
    Ok(SearchPlan { root, file_pattern, content_pattern, policy: search_policy(args) })
}

/// What the search reports of one file.
#[derive(Debug)]
pub enum FileReport {
    /// The file was scanned; these are its findings, line by line.
    Scanned { path: String, findings: Vec<LineFinding> },
    /// The file could not be read and was left out.
    Failed { path: String, failure: ReadFailure },
}

/// A file report with its texts and findings as sequences.
pub enum FileReportView {
    Scanned { path: Seq<char>, findings: Seq<LineFindingView> },
    Failed { path: Seq<char>, failure: ReadFailure },
}

impl View for FileReport {
    type V = FileReportView;

    open spec fn view(&self) -> FileReportView {
        match self {
            FileReport::Scanned { path, findings } => FileReportView::Scanned {
                path: path@,
                findings: finding_views(findings@),
            },
            FileReport::Failed { path, failure } => FileReportView::Failed {
                path: path@,
                failure: *failure,
            },
        }
    }
}

/// The views of a list of file reports.
pub open spec fn report_views(reports: Seq<FileReport>) -> Seq<FileReportView> {
    reports.map_values(|r: FileReport| r@)
}

/// Whether an entry takes part in a search: the filter admits it, and its
/// name matches the file-name pattern.
pub open spec fn selects(plan: SearchPlanView, entry: WalkEntry) -> bool {
    &&& decision(entry, plan.policy) == EntryDecision::Include
    &&& regex_is_match(
        plan.file_pattern.source,
        plan.file_pattern.case_insensitive,
        entry_name(entry.path@),
    )
}

impl SearchPlan {
    /// Decides whether an entry takes part in the search; only then is
    /// there a reason to read it.
    pub fn selects(&self, entry: &WalkEntry) -> (r: bool)
        ensures
            r == selects(self@, *entry),
    {
        if !(filter_entry(entry, &self.policy) == EntryDecision::Include) {
            return false;
        }
        let name = file_name_of(entry.path.as_str());
        self.file_pattern.is_match(name.as_str())
    }
}

/// What the search reports of one file of the corpus: nothing where the
/// file does not take part, its findings where it could be read, and the
/// failure where it could not.
pub open spec fn report_of(plan: SearchPlanView, file: CorpusFile) -> Option<FileReportView> {
    if !selects(plan, file.entry) {
        None
    } else {
        match file.content {
            Ok(content) => Some(
                FileReportView::Scanned {
                    path: file.entry.path@,
                    findings: findings_of(plan.content_pattern, content@, lines_of(content@)),
                },
            ),
            Err(failure) => Some(FileReportView::Failed { path: file.entry.path@, failure }),
        }
    }
}

/// The reports of a search over a corpus, in the order of the walk.
pub open spec fn reports_of(plan: SearchPlanView, corpus: Seq<CorpusFile>) -> Seq<FileReportView>
    decreases corpus.len(),
{
    if corpus.len() == 0 {
        Seq::empty()
    } else {
        let before = reports_of(plan, corpus.drop_last());
        match report_of(plan, corpus.last()) {
            Some(report) => before.push(report),
            None => before,
        }
    }
}

/// Searches one file of the corpus.
pub fn search_file(plan: &SearchPlan, file: &CorpusFile) -> (r: Option<FileReport>)
    ensures
        r is Some <==> report_of(plan@, *file) is Some,
        r matches Some(report) ==> Some(report@) == report_of(plan@, *file),
{
    if !plan.selects(&file.entry) {
        return None;
    }
    let path = copy_str(file.entry.path.as_str());
    match &file.content {
        Ok(content) => Some(
            FileReport::Scanned {
                path,
                findings: search_content(&plan.content_pattern, content.as_slice()),
            },
        ),
        Err(failure) => Some(FileReport::Failed { path, failure: *failure }),
    }
}

/// Searches a corpus with a plan: every file that takes part is scanned or
/// reported as failed, and a failure of one file does not stop the rest.
pub fn search_corpus(plan: &SearchPlan, corpus: &Vec<CorpusFile>) -> (reports: Vec<FileReport>)
    ensures
        report_views(reports@) == reports_of(plan@, corpus@),
{
    let mut reports: Vec<FileReport> = Vec::new();
    let mut i: usize = 0;
    while i < corpus.len()
        invariant
            i <= corpus.len(),
            report_views(reports@) == reports_of(plan@, corpus@.take(i as int)),
        decreases corpus.len() - i,
    {
        let ghost before = reports@;
        proof {
            let next = corpus@.take(i + 1);
            assert(next.drop_last() == corpus@.take(i as int));
            assert(next.last() == corpus@[i as int]);
        }
        match search_file(plan, &corpus[i]) {
            Some(report) => {
                reports.push(report);
                proof {
                    assert(report_views(reports@) == report_views(before).push(reports@.last()@));
                }
            },
            None => {},
        }
        i = i + 1;
    }
    proof {
        assert(corpus@.take(corpus.len() as int) == corpus@);
    }
    reports
}

/// Runs a search over a corpus. The search is set up first, and an invalid
/// path or pattern is refused before any file is looked at; the error for
/// a rejected pattern names that pattern.
pub fn run_search(args: &SearchArgs, corpus: &Vec<CorpusFile>) -> (r: Result<
    Vec<FileReport>,
    PatternError,
>)
    ensures
        r is Ok <==> search_is_valid(*args),
        r matches Ok(reports) ==> report_views(reports@) == reports_of(planned(*args), corpus@),
        r matches Err(e) ==> (e is InvalidPathPattern <==> !args.path@.contains('/')),
        r matches Err(e) ==> (e matches PatternError::InvalidPattern { pattern, .. }
            ==> pattern@ == refused_pattern(*args)),
{
    match plan_search(args) {
        Ok(plan) => Ok(search_corpus(&plan, corpus)),
        Err(e) => Err(e),
    }
}

} // verus!
