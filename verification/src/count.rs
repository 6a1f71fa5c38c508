//! The count operation: how many lines of each file match, and the grand
//! total over all files.

use vstd::prelude::*;
use vstd::utf8::{decode_utf8, encode_utf8_decode_utf8, valid_utf8};
use crate::command::CountArgs;
use crate::corpus::{
    admitted,
    failure_of,
    failure_views,
    is_admitted,
    unreadable,
    CorpusFile,
    FileFailure,
    ReadFailure,
};
use crate::filter::{count_policy, open_policy, FilterPolicy};
use crate::text::copy_str;
use crate::lines::{line_bytes, line_text, line_within, lines_of, scan_lines, LineRange};
use crate::pattern::{
    pattern_source,
    regex_compiled,
    regex_is_match,
    CompiledPattern,
    PatternError,
    PatternKind,
    PatternView,
};

verus! {

/// Whether a line counts: it is valid text and the pattern matches
/// somewhere in it.
pub open spec fn line_counts(pattern: PatternView, content: Seq<u8>, line: LineRange) -> bool {
    let bytes = line_bytes(content, line);
    valid_utf8(bytes) && regex_is_match(
        pattern.source,
        pattern.case_insensitive,
        decode_utf8(bytes),
    )
}

/// How many of the lines count.
pub open spec fn matching_lines(pattern: PatternView, content: Seq<u8>, lines: Seq<LineRange>) -> nat
    decreases lines.len(),
{
    if lines.len() == 0 {
        0
    } else {
        matching_lines(pattern, content, lines.drop_last()) + if line_counts(
            pattern,
            content,
            lines.last(),
        ) {
            1nat
        } else {
            0nat
        }
    }
}

/// The 1-based numbers of the lines that are not valid text.
pub open spec fn undecodable_lines(content: Seq<u8>, lines: Seq<LineRange>) -> Seq<usize>
    decreases lines.len(),
{
    if lines.len() == 0 {
        Seq::empty()
    } else {
        let before = undecodable_lines(content, lines.drop_last());
        if valid_utf8(line_bytes(content, lines.last())) {
            before
        } else {
            before.push(lines.len() as usize)
        }
    }
}

/// The count of one file.
#[derive(Debug)]
pub struct FileCount {
    /// How many lines match.
    pub matches: usize,
    /// The numbers of the lines that could not be decoded and were skipped.
    pub decode_errors: Vec<usize>,
}

/// How the count command reads its pattern: as a regex where asked to,
/// otherwise as a literal substring; case matters either way.
pub open spec fn count_kind(regex: bool) -> PatternKind {
    if regex {
        PatternKind::Regex
    } else {
        PatternKind::Literal
    }
}

/// Compiles the pattern of a count command. The error for a pattern that
/// the regex engine rejects names the pattern as the command gave it.
pub fn count_pattern(args: &CountArgs) -> (r: Result<CompiledPattern, PatternError>)
    ensures
        r is Ok <==> regex_compiled(
            pattern_source(args.pattern@, count_kind(args.regex)),
            false,
        ) is Some,
        r matches Ok(compiled) ==> compiled@ == (PatternView {
            source: pattern_source(args.pattern@, count_kind(args.regex)),
            case_insensitive: false,
        }),
        r matches Err(e) ==> (e matches PatternError::InvalidPattern { pattern, .. } && pattern@
            == args.pattern@),
{
    let kind = if args.regex {
        PatternKind::Regex
    } else {
        PatternKind::Literal
    };
    CompiledPattern::compile(args.pattern.as_str(), kind, false)
}

/// Counts the lines of a file's content that the pattern matches, as a
/// whole-line test. Lines that are not valid text are skipped and listed.
pub fn count_content(pattern: &CompiledPattern, content: &[u8]) -> (r: FileCount)
    ensures
        r.matches == matching_lines(pattern@, content@, lines_of(content@)),
        r.decode_errors@ == undecodable_lines(content@, lines_of(content@)),
{
    let lines = scan_lines(content);
    let mut matches: usize = 0;
    let mut decode_errors: Vec<usize> = Vec::new();
    let mut i: usize = 0;
    while i < lines.len()
        invariant
            i <= lines.len(),
            forall|k: int| 0 <= k < lines.len() ==> line_within(content@, 0, #[trigger] lines[k]),
            matches <= i,
            matches == matching_lines(pattern@, content@, lines@.take(i as int)),
            decode_errors@ == undecodable_lines(content@, lines@.take(i as int)),
        decreases lines.len() - i,
    {
        let line = lines[i];
        proof {
            let next = lines@.take(i + 1);
            assert(next.drop_last() == lines@.take(i as int));
            assert(next.last() == line);
            assert(line_within(content@, 0, line));
        }
        match line_text(content, line) {
            None => {
                decode_errors.push(i + 1);
            },
            Some(text) => {
                proof {
                    encode_utf8_decode_utf8(text@);
                }
                if pattern.is_match(text) {
                    matches = matches + 1;
                }
            },
        }
        i = i + 1;
    }
    proof {
        assert(lines@.take(lines.len() as int) == lines@);
    }
    FileCount { matches, decode_errors }
}

/// One line of the count report: a file and how many of its lines match.
#[derive(Debug)]
pub struct FileTally {
    pub path: String,
    pub count: usize,
}

/// The sum of the counts of the given report lines.
pub open spec fn sum_counts(entries: Seq<(Seq<char>, usize)>) -> nat
    decreases entries.len(),
{
    if entries.len() == 0 {
        0
    } else {
        sum_counts(entries.drop_last()) + entries.last().1 as nat
    }
}

/// What a count report stands for: its lines, file by file in the order
/// they were recorded, and the grand total.
pub struct CountReportView {
    pub entries: Seq<(Seq<char>, usize)>,
    pub total: nat,
}

/// The report of a count run: a line for each file with at least one
/// match, and the grand total.
#[derive(Debug)]
pub struct CountReport {
    entries: Vec<FileTally>,
    total: u128,
}

/// The report lines as pairs of path and count.
pub open spec fn tally_views(entries: Seq<FileTally>) -> Seq<(Seq<char>, usize)> {
    entries.map_values(|t: FileTally| (t.path@, t.count))
}

impl View for CountReport {
    type V = CountReportView;

    closed spec fn view(&self) -> CountReportView {
        CountReportView { entries: tally_views(self.entries@), total: self.total as nat }
    }
}

/// A sum of counts is at most the largest count times their number.
pub proof fn lemma_sum_counts_bound(entries: Seq<(Seq<char>, usize)>)
    ensures
        sum_counts(entries) <= entries.len() * usize::MAX,
    decreases entries.len(),
{
    if entries.len() > 0 {
        lemma_sum_counts_bound(entries.drop_last());
        assert((entries.len() - 1) * usize::MAX + usize::MAX == entries.len() * usize::MAX)
            by (nonlinear_arith);
    }
}

impl CountReport {
    #[verifier::type_invariant]
    spec fn total_is_sum(self) -> bool {
        self.total == sum_counts(tally_views(self.entries@))
    }

    /// A report with no lines and a total of zero.
    pub fn new() -> (r: CountReport)
        ensures
            r@.entries.len() == 0,
            r@.total == 0,
    {
        CountReport { entries: Vec::new(), total: 0 }
    }

    /// Records the count of one file. A file without matches gets no line
    /// and adds nothing; any other file gets a line after those already
    /// there, and its count is added to the total.
    pub fn record(&mut self, path: String, count: usize)
        ensures
            final(self)@.entries == (if count > 0 {
                old(self)@.entries.push((path@, count))
            } else {
                old(self)@.entries
            }),
            final(self)@.total == old(self)@.total + count,
            final(self)@.total == sum_counts(final(self)@.entries),
    {
        if count > 0 {
            let mut taken = CountReport::new();
            std::mem::swap(self, &mut taken);
            proof {
                use_type_invariant(&taken);
            }
            let CountReport { mut entries, total } = taken;
            let ghost before = entries@;
            proof {
                lemma_sum_counts_bound(tally_views(before));
                assert(before.len() == entries.len());
                assert(before.len() * usize::MAX <= usize::MAX * usize::MAX) by (nonlinear_arith)
                    requires
                        before.len() <= usize::MAX,
                ;
                assert(usize::MAX * usize::MAX + usize::MAX <= u128::MAX) by (nonlinear_arith)
                    requires
                        usize::MAX <= u64::MAX,
                ;
            }
            entries.push(FileTally { path, count });
            proof {
                assert(tally_views(entries@) == tally_views(before).push((path@, count)));
                assert(tally_views(entries@).drop_last() == tally_views(before));
            }
            *self = CountReport { entries, total: total + count as u128 };
        } else {
            proof {
                use_type_invariant(&*self);
            }
        }
    }

    /// The grand total: the sum of the counts of all report lines.
    pub fn total(&self) -> (r: u128)
        ensures
            r == self@.total,
            r == sum_counts(self@.entries),
    {
        proof {
            use_type_invariant(self);
        }
        self.total
    }

    /// The report lines, in the order they were recorded.
    pub fn entries(&self) -> (r: &Vec<FileTally>)
        ensures
            tally_views(r@) == self@.entries,
    {
        &self.entries
    }
}

/// A line that was skipped because it is not valid text.
#[derive(Debug)]
pub struct LineFailure {
    pub path: String,
    pub line_number: usize,
}

/// The skipped lines as pairs of path and line number.
pub open spec fn line_failure_views(failures: Seq<LineFailure>) -> Seq<(Seq<char>, usize)> {
    failures.map_values(|f: LineFailure| (f.path@, f.line_number))
}

/// What a count run gives: the report, the files that could not be read,
/// and the lines that were skipped.
#[derive(Debug)]
pub struct CountRun {
    pub report: CountReport,
    pub failures: Vec<FileFailure>,
    pub skipped_lines: Vec<LineFailure>,
}

/// The pattern that the arguments of a count command state.
pub open spec fn count_pattern_view(args: CountArgs) -> PatternView {
    PatternView {
        source: pattern_source(args.pattern@, count_kind(args.regex)),
        case_insensitive: false,
    }
}

/// The line of the report that one file of the corpus gives: none where
/// the file does not take part, could not be read, or has no match.
pub open spec fn tally_of(pattern: PatternView, policy: FilterPolicy, file: CorpusFile) -> Option<
    (Seq<char>, usize),
> {
    if admitted(file, policy) && file.content is Ok {
        let n = matching_lines(pattern, file.content->Ok_0@, lines_of(file.content->Ok_0@));
        if n > 0 {
            Some((file.entry.path@, n as usize))
        } else {
            None
        }
    } else {
        None
    }
}

/// The lines of the report for a corpus: a line for each file that takes
/// part, could be read and has at least one match, in the order of the
/// walk.
pub open spec fn counted(pattern: PatternView, policy: FilterPolicy, corpus: Seq<CorpusFile>) -> Seq<
    (Seq<char>, usize),
>
    decreases corpus.len(),
{
    if corpus.len() == 0 {
        Seq::empty()
    } else {
        let before = counted(pattern, policy, corpus.drop_last());
        match tally_of(pattern, policy, corpus.last()) {
            Some(line) => before.push(line),
            None => before,
        }
    }
}

/// The numbers of the skipped lines of one file of the corpus, each with
/// the file's path.
pub open spec fn skipped_of(policy: FilterPolicy, file: CorpusFile) -> Seq<(Seq<char>, usize)> {
    if admitted(file, policy) && file.content is Ok {
        undecodable_lines(file.content->Ok_0@, lines_of(file.content->Ok_0@)).map_values(
            |n: usize| (file.entry.path@, n),
        )
    } else {
        Seq::empty()
    }
}

/// The lines of a corpus that were skipped because they are not valid
/// text, file by file.
pub open spec fn skipped(policy: FilterPolicy, corpus: Seq<CorpusFile>) -> Seq<(Seq<char>, usize)>
    decreases corpus.len(),
{
    if corpus.len() == 0 {
        Seq::empty()
    } else {
        skipped(policy, corpus.drop_last()) + skipped_of(policy, corpus.last())
    }
}

fn note_skipped_lines(skipped_lines: &mut Vec<LineFailure>, path: &str, numbers: &Vec<usize>)
    ensures
        line_failure_views(final(skipped_lines)@) == line_failure_views(old(skipped_lines)@)
            + numbers@.map_values(|n: usize| (path@, n)),
{
    let ghost before = line_failure_views(skipped_lines@);
    let ghost all = numbers@.map_values(|n: usize| (path@, n));
    let mut j: usize = 0;
    while j < numbers.len()
        invariant
            j <= numbers.len(),
            all == numbers@.map_values(|n: usize| (path@, n)),
            line_failure_views(skipped_lines@) == before + all.take(j as int),
        decreases numbers.len() - j,
    {
        let ghost so_far = skipped_lines@;
        skipped_lines.push(LineFailure { path: copy_str(path), line_number: numbers[j] });
        proof {
            assert(line_failure_views(skipped_lines@) == line_failure_views(so_far).push(
                (path@, numbers[j as int]),
            ));
            assert(all.take(j + 1) == all.take(j as int).push(all[j as int]));
        }
        j = j + 1;
    }
    proof {
        assert(all.take(numbers.len() as int) == all);
    }
}

impl CountRun {
    /// A run that has seen no file yet.
    pub fn new() -> (run: CountRun)
        ensures
            run.report@.entries.len() == 0,
            run.report@.total == 0,
            run.failures@.len() == 0,
            run.skipped_lines@.len() == 0,
    {
        CountRun { report: CountReport::new(), failures: Vec::new(), skipped_lines: Vec::new() }
    }

    /// Takes one file of the corpus into the run: a file that takes part
    /// is counted, or noted as failed where it could not be read; any
    /// other file changes nothing.
    pub fn add_file(&mut self, pattern: &CompiledPattern, policy: &FilterPolicy, file: &CorpusFile)
        ensures
            final(self).report@.entries == (match tally_of(pattern@, *policy, *file) {
                Some(line) => old(self).report@.entries.push(line),
                None => old(self).report@.entries,
            }),
            final(self).report@.total == sum_counts(final(self).report@.entries),
            failure_views(final(self).failures@) == (match failure_of(*policy, *file) {
                Some(failure) => failure_views(old(self).failures@).push(failure),
                None => failure_views(old(self).failures@),
            }),
            line_failure_views(final(self).skipped_lines@) == line_failure_views(
                old(self).skipped_lines@,
            ) + skipped_of(*policy, *file),
    {
        proof {
            assert(line_failure_views(self.skipped_lines@) + Seq::<(Seq<char>, usize)>::empty()
                == line_failure_views(self.skipped_lines@));
        }
        proof {
            use_type_invariant(&self.report);
        }
        if !is_admitted(file, policy) {
            return ;
        }
        match &file.content {
            Ok(content) => {
                let counted_file = count_content(pattern, content.as_slice());
                self.report.record(copy_str(file.entry.path.as_str()), counted_file.matches);
                note_skipped_lines(
                    &mut self.skipped_lines,
                    file.entry.path.as_str(),
                    &counted_file.decode_errors,
                );
            },
            Err(failure) => {
                let ghost so_far = self.failures@;
                self.failures.push(
                    FileFailure { path: copy_str(file.entry.path.as_str()), failure: *failure },
                );
                proof {
                    assert(failure_views(self.failures@) == failure_views(so_far).push(
                        (file.entry.path@, *failure),
                    ));
                }
            },
        }
    }
}

/// Counts over a corpus with a compiled pattern and a policy. Every file
/// that takes part is counted or reported as failed; the total of the
/// report is the sum of its lines.
pub fn count_corpus(pattern: &CompiledPattern, policy: &FilterPolicy, corpus: &Vec<CorpusFile>) -> (run:
    CountRun)
    ensures
        run.report@.entries == counted(pattern@, *policy, corpus@),
        run.report@.total == sum_counts(run.report@.entries),
        failure_views(run.failures@) == unreadable(*policy, corpus@),
        line_failure_views(run.skipped_lines@) == skipped(*policy, corpus@),
{
    let mut run = CountRun::new();
    let mut i: usize = 0;
    proof {
        assert(run.report@.entries == Seq::<(Seq<char>, usize)>::empty());
        assert(failure_views(run.failures@) == Seq::<(Seq<char>, ReadFailure)>::empty());
        assert(line_failure_views(run.skipped_lines@) == Seq::<(Seq<char>, usize)>::empty());
    }
    while i < corpus.len()
        invariant
            i <= corpus.len(),
            run.report@.entries == counted(pattern@, *policy, corpus@.take(i as int)),
            run.report@.total == sum_counts(run.report@.entries),
            failure_views(run.failures@) == unreadable(*policy, corpus@.take(i as int)),
            line_failure_views(run.skipped_lines@) == skipped(*policy, corpus@.take(i as int)),
        decreases corpus.len() - i,
    {
        proof {
            let next = corpus@.take(i + 1);
            assert(next.drop_last() == corpus@.take(i as int));
            assert(next.last() == corpus@[i as int]);
        }
        run.add_file(pattern, policy, &corpus[i]);
        i = i + 1;
    }
    proof {
        assert(corpus@.take(corpus.len() as int) == corpus@);
    }
    run
}

/// Runs a count over a corpus, in which every regular file takes part.
/// An invalid pattern is refused before any file is looked at, and the
/// error names it.
pub fn run_count(args: &CountArgs, corpus: &Vec<CorpusFile>) -> (r: Result<CountRun, PatternError>)
    ensures
        r is Ok <==> regex_compiled(count_pattern_view(*args).source, false) is Some,
        r matches Ok(run) ==> {
            &&& run.report@.entries == counted(count_pattern_view(*args), open_policy(), corpus@)
            &&& run.report@.total == sum_counts(run.report@.entries)
            &&& failure_views(run.failures@) == unreadable(open_policy(), corpus@)
            &&& line_failure_views(run.skipped_lines@) == skipped(open_policy(), corpus@)
        },
        r matches Err(e) ==> (e matches PatternError::InvalidPattern { pattern, .. } && pattern@
            == args.pattern@),
{
    match count_pattern(args) {
        Ok(pattern) => Ok(count_corpus(&pattern, &count_policy(), corpus)),
        Err(e) => Err(e),
    }
}

} // verus!
