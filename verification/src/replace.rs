//! The replace operation: literal search and replacement in a file's
//! content, and the order of steps that rewrites a file safely.

use vstd::prelude::*;
use vstd::utf8::{encode_utf8, is_continuation_byte};
use vstd::slice::slice_to_vec;
use crate::command::ReplaceArgs;
use crate::corpus::{admitted, failure_views, is_admitted, unreadable, CorpusFile, FileFailure};
use crate::filter::{entry_name, open_policy, replace_policy, FilterPolicy};
use crate::text::{
    chars_from,
    chars_of,
    copy_str,
    last_index_of,
    lemma_last_index_of,
    push_char,
    rfind_char,
    substring,
};

verus! {

/// `old` stands in `text` at byte `i`.
pub open spec fn occurs_at(text: Seq<u8>, old: Seq<u8>, i: int) -> bool {
    0 <= i && i + old.len() <= text.len() && text.subrange(i, i + old.len()) == old
}

/// `old` stands somewhere in `text`.
pub open spec fn occurs(text: Seq<u8>, old: Seq<u8>) -> bool {
    exists|i: int| occurs_at(text, old, i)
}

/// The text from `pos` on with every occurrence of a non-empty `old`
/// replaced by `new`, reading left to right: an occurrence is replaced
/// whole, and reading resumes right after it.
pub open spec fn replaced_from(text: Seq<u8>, old: Seq<u8>, new: Seq<u8>, pos: int) -> Seq<u8>
    decreases text.len() - pos,
{
    if pos < 0 || pos >= text.len() || old.len() == 0 {
        Seq::empty()
    } else if occurs_at(text, old, pos) {
        new + replaced_from(text, old, new, pos + old.len())
    } else {
        seq![text[pos]] + replaced_from(text, old, new, pos + 1)
    }
}

/// The text from `pos` on with `new` put before each character and after
/// the last one.
pub open spec fn interleaved_from(text: Seq<u8>, new: Seq<u8>, pos: int) -> Seq<u8>
    decreases text.len() - pos,
{
    if pos < 0 || pos >= text.len() {
        new
    } else if pos > 0 && is_continuation_byte(text[pos]) {
        seq![text[pos]] + interleaved_from(text, new, pos + 1)
    } else {
        new + seq![text[pos]] + interleaved_from(text, new, pos + 1)
    }
}

/// The text with all non-overlapping occurrences of `old` replaced by
/// `new`. An empty `old` occurs before each character and at the end.
pub open spec fn replaced(text: Seq<u8>, old: Seq<u8>, new: Seq<u8>) -> Seq<u8> {
    if old.len() == 0 {
        interleaved_from(text, new, 0)
    } else {
        replaced_from(text, old, new, 0)
    }
}

proof fn lemma_replaced_from_absent(text: Seq<u8>, old: Seq<u8>, new: Seq<u8>, pos: int)
    requires
        0 <= pos <= text.len(),
        old.len() > 0,
        forall|i: int| pos <= i ==> !occurs_at(text, old, i),
    ensures
        replaced_from(text, old, new, pos) == text.skip(pos),
    decreases text.len() - pos,
{
    if pos < text.len() {
        lemma_replaced_from_absent(text, old, new, pos + 1);
        assert(seq![text[pos]] + text.skip(pos + 1) == text.skip(pos));
    } else {
        assert(text.skip(pos) == Seq::<u8>::empty());
    }
}

/// Replacing leaves a text as it is when `old` does not occur in it.
pub proof fn lemma_replace_absent_is_identity(text: Seq<u8>, old: Seq<u8>, new: Seq<u8>)
    requires
        !occurs(text, old),
    ensures
        replaced(text, old, new) == text,
{
    if old.len() == 0 {
        assert(text.subrange(0, 0) == old);
        assert(occurs_at(text, old, 0));
    } else {
        lemma_replaced_from_absent(text, old, new, 0);
        assert(text.skip(0) == text);
    }
}

/// Whether `old` stands in `text` at byte `pos`.
pub fn matches_at(text: &[u8], old: &[u8], pos: usize) -> (r: bool)
    ensures
        r == occurs_at(text@, old@, pos as int),
{
    if pos > text.len() || old.len() > text.len() - pos {
        return false;
    }
    let mut k: usize = 0;
    while k < old.len()
        invariant
            k <= old.len(),
            pos + old.len() <= text.len(),
            forall|j: int| 0 <= j < k ==> text[pos + j] == old[j],
        decreases old.len() - k,
    {
        if text[pos + k] != old[k] {
            proof {
                assert(text@.subrange(pos as int, pos + old.len())[k as int] == text[pos + k]);
            }
            return false;
        }
        k = k + 1;
    }
    proof {
        assert(text@.subrange(pos as int, pos + old.len()) =~= old@);
    }
    true
}

/// Whether `old` stands somewhere in `text`.
pub fn contains_bytes(text: &[u8], old: &[u8]) -> (r: bool)
    ensures
        r == occurs(text@, old@),
{
    if old.len() > text.len() {
        return false;
    }
    let last = text.len() - old.len();
    let mut pos: usize = 0;
    loop
        invariant
            last == text.len() - old.len(),
            pos <= last,
            forall|i: int| 0 <= i < pos ==> !occurs_at(text@, old@, i),
        decreases last - pos,
    {
        if matches_at(text, old, pos) {
            return true;
        }
        if pos == last {
            return false;
        }
        pos = pos + 1;
    }
}

/// Replaces all non-overlapping occurrences of `old` in `text` by `new`,
/// reading left to right.
pub fn replace_all(text: &[u8], old: &[u8], new: &[u8]) -> (r: Vec<u8>)
    ensures
        r@ == replaced(text@, old@, new@),
{
    let mut out: Vec<u8> = Vec::new();
    let mut pos: usize = 0;
    if old.len() == 0 {
        while pos < text.len()
            invariant
                pos <= text.len(),
                out@ + interleaved_from(text@, new@, pos as int) == interleaved_from(
                    text@,
                    new@,
                    0,
                ),
            decreases text.len() - pos,
        {
            let ghost before = out@;
            let ghost rest = interleaved_from(text@, new@, pos + 1);
            let byte = text[pos];
            if !(pos > 0 && 0x80 <= byte && byte <= 0xBF) {
                out.extend_from_slice(new);
            }
            out.push(byte);
            proof {
                if pos > 0 && is_continuation_byte(byte) {
                    assert(before.push(byte) + rest == before + (seq![byte] + rest));
                } else {
                    assert((before + new@).push(byte) + rest == before + (new@ + seq![byte]
                        + rest));
                }
            }
            pos = pos + 1;
        }
        out.extend_from_slice(new);
        return out;
    }
    while pos < text.len()
        invariant
            pos <= text.len(),
            old.len() > 0,
            out@ + replaced_from(text@, old@, new@, pos as int) == replaced_from(
                text@,
                old@,
                new@,
                0,
            ),
        decreases text.len() - pos,
    {
        let ghost before = out@;
        if matches_at(text, old, pos) {
            let ghost rest = replaced_from(text@, old@, new@, pos + old.len());
            out.extend_from_slice(new);
            proof {
                assert(before + new@ + rest == before + (new@ + rest));
            }
            pos = pos + old.len();
        } else {
            let ghost rest = replaced_from(text@, old@, new@, pos + 1);
            out.push(text[pos]);
            proof {
                assert(before.push(text[pos as int]) + rest == before + (seq![text[pos as int]]
                    + rest));
            }
            pos = pos + 1;
        }
    }
    proof {
        assert(out@ + Seq::<u8>::empty() == out@);
    }
    out
}

/// What became of one file.
#[derive(Clone, Copy, Debug, PartialEq, Eq, Structural)]
pub enum ReplaceOutcome {
    /// The file was rewritten with the replacements made.
    Replaced,
    /// The file does not hold the old text and was left alone.
    Skipped,
    /// Dry run: the file holds the old text and would be rewritten.
    WouldReplace,
    /// The backup copy could not be made; the file was left alone.
    BackupFailed,
    /// Writing the new content failed.
    WriteFailed,
}

/// The extension that the backup copy of a file gets in place of the
/// file's own.
pub open spec fn backup_marker() -> Seq<char> {
    seq!['b', 'a', 'k']
}

/// Whether a name is that of a file: it is not empty, and it is neither
/// `.` nor `..`.
pub open spec fn names_file(name: Seq<char>) -> bool {
    name.len() > 0 && name != seq!['.'] && name != seq!['.', '.']
}

/// Where the backup copy of the file at `path` lies: beside the file,
/// under the file's name with its extension replaced by the backup marker.
/// The extension is what follows the last dot of the name, where that dot
/// is not the name's first character; a name without extension gets a dot
/// and the marker added. A path that names no file stays as it is.
pub open spec fn backup_path_of(path: Seq<char>) -> Seq<char> {
    let name = entry_name(path);
    let dot = last_index_of(name, '.');
    if !names_file(name) {
        path
    } else if dot <= 0 {
        path + seq!['.'] + backup_marker()
    } else {
        path.take(path.len() - name.len() + dot + 1) + backup_marker()
    }
}

/// The extension that the backup copy of a file gets in place of the
/// file's own.
pub fn backup_extension() -> (marker: &'static str)
    ensures
        marker@ == backup_marker(),
{
    proof {
        reveal_strlit("bak");
        assert("bak"@ =~= seq!['b', 'a', 'k']);
    }
    "bak"
}

/// Names the backup copy of the file at `path`.
pub fn backup_path(path: &str) -> (r: String)
    ensures
        r@ == backup_path_of(path@),
{
    let chars = chars_of(path);
    proof {
        lemma_last_index_of(chars@, '/');
    }
    let first = match rfind_char(&chars, '/') {
        Some(k) => {
            assert(k < chars.len());
            k + 1
        },
        None => 0,
    };
    let len = chars.len();
    let ghost name = entry_name(path@);
    proof {
        assert(name == chars@.skip(first as int));
        assert(name.len() == len - first);
        lemma_last_index_of(name, '.');
    }
    let is_dot = len - first == 1 && chars[first] == '.';
    let is_dot_dot = len - first == 2 && chars[first] == '.' && chars[first + 1] == '.';
    proof {
        if is_dot {
            assert(name =~= seq!['.']);
        }
        if is_dot_dot {
            assert(name =~= seq!['.', '.']);
        }
        if name == seq!['.'] {
            assert(name[0] == '.');
        }
        if name == seq!['.', '.'] {
            assert(name[0] == '.' && name[1] == '.');
        }
    }
    if len == first || is_dot || is_dot_dot {
        return copy_str(path);
    }
    let name_chars = chars_from(&chars, first);
    let mut out = match rfind_char(&name_chars, '.') {
        Some(dot) => {
            if dot > 0 {
                assert(dot < name_chars.len());
                let kept = substring(&chars, 0, first + dot + 1);
                proof {
                    assert(chars@.subrange(0, first + dot + 1) == path@.take(
                        path@.len() - name.len() + dot + 1,
                    ));
                }
                kept
            } else {
                let mut whole = copy_str(path);
                push_char(&mut whole, '.');
                whole
            }
        },
        None => {
            let mut whole = copy_str(path);
            push_char(&mut whole, '.');
            whole
        },
    };
    out.append(backup_extension());
    out
}

/// What is to be done next with a file.
#[derive(Debug)]
pub enum ReplaceStep {
    /// Copy the file, as it is, to this path.
    CopyBackup { to: String },
    /// Overwrite the file with these contents.
    WriteFile { contents: Vec<u8> },
    /// Nothing more: report the outcome.
    Done { outcome: ReplaceOutcome },
}

/// A step with its texts as sequences.
pub enum ReplaceStepView {
    CopyBackup { to: Seq<char> },
    WriteFile { contents: Seq<u8> },
    Done { outcome: ReplaceOutcome },
}

impl View for ReplaceStep {
    type V = ReplaceStepView;

    open spec fn view(&self) -> ReplaceStepView {
        match self {
            ReplaceStep::CopyBackup { to } => ReplaceStepView::CopyBackup { to: to@ },
            ReplaceStep::WriteFile { contents } => ReplaceStepView::WriteFile {
                contents: contents@,
            },
            ReplaceStep::Done { outcome } => ReplaceStepView::Done { outcome: *outcome },
        }
    }
}

/// What a replace command asks for, with its texts as bytes.
pub struct ReplaceRule {
    pub old: Seq<u8>,
    pub new: Seq<u8>,
    pub dry_run: bool,
    pub backup: bool,
}

/// The rule that the arguments of a replace command state.
pub open spec fn rule_of(args: ReplaceArgs) -> ReplaceRule {
    ReplaceRule {
        old: encode_utf8(args.old_string@),
        new: encode_utf8(args.new_string@),
        dry_run: args.dry_run,
        backup: args.backup,
    }
}

/// The step that rewrites: a dry run only reports, anything else writes
/// the content with the replacements made.
pub open spec fn rewrite_step(rule: ReplaceRule, contents: Seq<u8>) -> ReplaceStepView {
    if rule.dry_run {
        ReplaceStepView::Done { outcome: ReplaceOutcome::WouldReplace }
    } else {
        ReplaceStepView::WriteFile { contents: replaced(contents, rule.old, rule.new) }
    }
}

/// The first step for the file at `path` with the given contents. A file
/// without the old text is skipped. A dry run reports what would change,
/// and neither copies nor writes. Otherwise, where a backup is asked for,
/// the backup comes first; where none is, the rewrite.
pub open spec fn first_step(rule: ReplaceRule, path: Seq<char>, contents: Seq<u8>) -> ReplaceStepView {
    if !occurs(contents, rule.old) {
        ReplaceStepView::Done { outcome: ReplaceOutcome::Skipped }
    } else if rule.dry_run {
        ReplaceStepView::Done { outcome: ReplaceOutcome::WouldReplace }
    } else if rule.backup {
        ReplaceStepView::CopyBackup { to: backup_path_of(path) }
    } else {
        rewrite_step(rule, contents)
    }
}

/// The step after the backup copy was tried: without a backup the file is
/// not touched.
pub open spec fn step_after_backup(rule: ReplaceRule, contents: Seq<u8>, copied: bool) -> ReplaceStepView {
    if copied {
        rewrite_step(rule, contents)
    } else {
        ReplaceStepView::Done { outcome: ReplaceOutcome::BackupFailed }
    }
}

/// The outcome after the write was tried.
pub open spec fn outcome_after_write(written: bool) -> ReplaceOutcome {
    if written {
        ReplaceOutcome::Replaced
    } else {
        ReplaceOutcome::WriteFailed
    }
}

fn rewrite(args: &ReplaceArgs, contents: &[u8]) -> (step: ReplaceStep)
    ensures
        step@ == rewrite_step(rule_of(*args), contents@),
{
    if args.dry_run {
        ReplaceStep::Done { outcome: ReplaceOutcome::WouldReplace }
    } else {
        let old = args.old_string.as_str().as_bytes();
        let new = args.new_string.as_str().as_bytes();
        ReplaceStep::WriteFile { contents: replace_all(contents, old, new) }
    }
}

/// Decides the first step for the file at `path` from its contents.
pub fn begin_replace(args: &ReplaceArgs, path: &str, contents: &[u8]) -> (step: ReplaceStep)
    ensures
        step@ == first_step(rule_of(*args), path@, contents@),
{
    if !contains_bytes(contents, args.old_string.as_str().as_bytes()) {
        ReplaceStep::Done { outcome: ReplaceOutcome::Skipped }
    } else if args.dry_run {
        ReplaceStep::Done { outcome: ReplaceOutcome::WouldReplace }
    } else if args.backup {
        ReplaceStep::CopyBackup { to: backup_path(path) }
    } else {
        rewrite(args, contents)
    }
}

/// Decides the step after the backup copy was tried; `copied` says whether
/// it was made.
pub fn after_backup(args: &ReplaceArgs, contents: &[u8], copied: bool) -> (step: ReplaceStep)
    ensures
        step@ == step_after_backup(rule_of(*args), contents@, copied),
{
    if copied {
        rewrite(args, contents)
    } else {
        ReplaceStep::Done { outcome: ReplaceOutcome::BackupFailed }
    }
}

/// The outcome after the write was tried; `written` says whether it
/// succeeded.
pub fn after_write(written: bool) -> (outcome: ReplaceOutcome)
    ensures
        outcome == outcome_after_write(written),
{
    if written {
        ReplaceOutcome::Replaced
    } else {
        ReplaceOutcome::WriteFailed
    }
}

/// A file after a run of the steps: what became of it, its contents, and
/// the backup copies made of it, each with its path and what it holds.
pub struct FileAfter {
    pub outcome: ReplaceOutcome,
    pub contents: Seq<u8>,
    pub backups: Seq<(Seq<char>, Seq<u8>)>,
}

/// The file with a step carried out on it; a write, where there is one,
/// succeeds.
pub open spec fn carried_out(
    step: ReplaceStepView,
    contents: Seq<u8>,
    backups: Seq<(Seq<char>, Seq<u8>)>,
) -> FileAfter {
    match step {
        ReplaceStepView::WriteFile { contents: new_contents } => FileAfter {
            outcome: outcome_after_write(true),
            contents: new_contents,
            backups,
        },
        ReplaceStepView::Done { outcome } => FileAfter { outcome, contents, backups },
        ReplaceStepView::CopyBackup { .. } => FileAfter {
            outcome: ReplaceOutcome::BackupFailed,
            contents,
            backups,
        },
    }
}

/// The file at `path` after the steps were followed from the first one.
/// `backup_ok` says whether the backup copy, where one is asked for, can
/// be made.
pub open spec fn file_after(
    rule: ReplaceRule,
    path: Seq<char>,
    contents: Seq<u8>,
    backup_ok: bool,
) -> FileAfter {
    match first_step(rule, path, contents) {
        ReplaceStepView::CopyBackup { to } => if backup_ok {
            carried_out(step_after_backup(rule, contents, true), contents, seq![(to, contents)])
        } else {
            carried_out(step_after_backup(rule, contents, false), contents, Seq::empty())
        },
        step => carried_out(step, contents, Seq::empty()),
    }
}

/// A file that does not hold the old text is not touched: no step copies
/// or writes it, and its content stays as it was.
pub proof fn lemma_replace_without_match_is_noop(
    rule: ReplaceRule,
    path: Seq<char>,
    contents: Seq<u8>,
    backup_ok: bool,
)
    requires
        !occurs(contents, rule.old),
    ensures
        first_step(rule, path, contents) == (ReplaceStepView::Done {
            outcome: ReplaceOutcome::Skipped,
        }),
        file_after(rule, path, contents, backup_ok).outcome == ReplaceOutcome::Skipped,
        file_after(rule, path, contents, backup_ok).contents == contents,
        file_after(rule, path, contents, backup_ok).backups.len() == 0,
        replaced(contents, rule.old, rule.new) == contents,
{
    lemma_replace_absent_is_identity(contents, rule.old, rule.new);
}

/// A dry run changes nothing: no step copies or writes, whether a backup
/// is asked for or not. The file keeps its content, no backup is made,
/// and a file that holds the old text is reported as one that would
/// change.
pub proof fn lemma_dry_run_changes_nothing(
    rule: ReplaceRule,
    path: Seq<char>,
    contents: Seq<u8>,
    backup_ok: bool,
)
    requires
        rule.dry_run,
    ensures
        first_step(rule, path, contents) is Done,
        file_after(rule, path, contents, backup_ok).contents == contents,
        file_after(rule, path, contents, backup_ok).backups.len() == 0,
        file_after(rule, path, contents, backup_ok).outcome == (if occurs(contents, rule.old) {
            ReplaceOutcome::WouldReplace
        } else {
            ReplaceOutcome::Skipped
        }),
{
}

/// With a backup asked for and no dry run, a file that holds the old text
/// is copied before anything else is done to it, to the path beside it
/// that bears the backup marker. Where the copy can be made there is
/// exactly one backup, and it holds the content from before the rewrite;
/// where it cannot, no backup exists, the file keeps its content, and the
/// outcome says that the backup failed. So a changed file always has its
/// one backup.
pub proof fn lemma_backup_precedes_write(
    rule: ReplaceRule,
    path: Seq<char>,
    contents: Seq<u8>,
    backup_ok: bool,
)
    requires
        rule.backup,
        !rule.dry_run,
        occurs(contents, rule.old),
    ensures
        first_step(rule, path, contents) == (ReplaceStepView::CopyBackup {
            to: backup_path_of(path),
        }),
        backup_ok ==> file_after(rule, path, contents, backup_ok).backups == seq![
            (backup_path_of(path), contents),
        ],
        backup_ok ==> file_after(rule, path, contents, backup_ok).contents == replaced(
            contents,
            rule.old,
            rule.new,
        ),
        !backup_ok ==> file_after(rule, path, contents, backup_ok).contents == contents,
        !backup_ok ==> file_after(rule, path, contents, backup_ok).backups.len() == 0,
        !backup_ok ==> file_after(rule, path, contents, backup_ok).outcome
            == ReplaceOutcome::BackupFailed,
        file_after(rule, path, contents, backup_ok).contents != contents ==> file_after(
            rule,
            path,
            contents,
            backup_ok,
        ).backups == seq![(backup_path_of(path), contents)],
{
}

/// A backup copy: where it lies and what it holds.
#[derive(Debug)]
pub struct BackupCopy {
    pub path: String,
    pub contents: Vec<u8>,
}

/// The backup copies as pairs of path and contents.
pub open spec fn backup_views(backups: Seq<BackupCopy>) -> Seq<(Seq<char>, Seq<u8>)> {
    backups.map_values(|b: BackupCopy| (b.path@, b.contents@))
}

/// One file after a replace run in memory: what became of it, its
/// contents, and its backup copies.
#[derive(Debug)]
pub struct FileChange {
    pub path: String,
    pub outcome: ReplaceOutcome,
    pub contents: Vec<u8>,
    pub backups: Vec<BackupCopy>,
}

/// A file change with its contents as sequences.
pub struct FileChangeView {
    pub path: Seq<char>,
    pub after: FileAfter,
}

impl View for FileChange {
    type V = FileChangeView;

    open spec fn view(&self) -> FileChangeView {
        FileChangeView {
            path: self.path@,
            after: FileAfter {
                outcome: self.outcome,
                contents: self.contents@,
                backups: backup_views(self.backups@),
            },
        }
    }
}

/// The views of a list of file changes.
pub open spec fn change_views(changes: Seq<FileChange>) -> Seq<FileChangeView> {
    changes.map_values(|c: FileChange| c@)
}

/// What a replace run over a corpus gives: the files that took part, each
/// with its outcome, and the files that could not be read.
#[derive(Debug)]
pub struct ReplaceRun {
    pub changes: Vec<FileChange>,
    pub failures: Vec<FileFailure>,
}

/// Whether a backup copy of the file at place `i` of a corpus can be made:
/// `copies[i]` says so, and a file that the list does not reach can be
/// copied.
pub open spec fn backup_ok_at(copies: Seq<bool>, i: int) -> bool {
    !(0 <= i < copies.len()) || copies[i]
}

/// The files of a corpus after a replace run, in the order of the walk:
/// each file that takes part and could be read, as the steps leave it.
pub open spec fn changes_of(
    rule: ReplaceRule,
    policy: FilterPolicy,
    corpus: Seq<CorpusFile>,
    copies: Seq<bool>,
) -> Seq<FileChangeView>
    decreases corpus.len(),
{
    if corpus.len() == 0 {
        Seq::empty()
    } else {
        let before = changes_of(rule, policy, corpus.drop_last(), copies);
        let file = corpus.last();
        if admitted(file, policy) && file.content is Ok {
            before.push(
                FileChangeView {
                    path: file.entry.path@,
                    after: file_after(
                        rule,
                        file.entry.path@,
                        file.content->Ok_0@,
                        backup_ok_at(copies, corpus.len() - 1),
                    ),
                },
            )
        } else {
            before
        }
    }
}

/// Follows the steps for one file held in memory. `backup_ok` says whether
/// a backup copy of the file can be made; every write succeeds.
pub fn replace_in_memory(args: &ReplaceArgs, path: &str, contents: &[u8], backup_ok: bool) -> (change:
    FileChange)
    ensures
        change@ == (FileChangeView {
            path: path@,
            after: file_after(rule_of(*args), path@, contents@, backup_ok),
        }),
{
    let mut backups: Vec<BackupCopy> = Vec::new();
    let mut step = begin_replace(args, path, contents);
    proof {
        assert(backup_views(backups@) == Seq::<(Seq<char>, Seq<u8>)>::empty());
    }
    if let ReplaceStep::CopyBackup { to } = step {
        if backup_ok {
            let ghost target = to@;
            backups.push(BackupCopy { path: to, contents: slice_to_vec(contents) });
            proof {
                assert(backup_views(backups@) == seq![(target, contents@)]);
            }
        }
        step = after_backup(args, contents, backup_ok);
    }
    match step {
        ReplaceStep::WriteFile { contents: new_contents } => FileChange {
            path: copy_str(path),
            outcome: after_write(true),
            contents: new_contents,
            backups,
        },
        ReplaceStep::Done { outcome } => FileChange {
            path: copy_str(path),
            outcome,
            contents: slice_to_vec(contents),
            backups,
        },
        ReplaceStep::CopyBackup { .. } => FileChange {
            path: copy_str(path),
            outcome: ReplaceOutcome::BackupFailed,
            contents: slice_to_vec(contents),
            backups,
        },
    }
}

/// Runs a replace over a corpus held in memory, in which every regular
/// file takes part. Each such file is rewritten, skipped or reported; a
/// file that could not be read, or of which no backup can be made, does
/// not stop the rest. `copies[i]` says whether a backup copy of the file
/// at place `i` can be made; a file that the list does not reach can be
/// copied.
pub fn run_replace(args: &ReplaceArgs, corpus: &Vec<CorpusFile>, copies: &Vec<bool>) -> (run:
    ReplaceRun)
    ensures
        change_views(run.changes@) == changes_of(
            rule_of(*args),
            open_policy(),
            corpus@,
            copies@,
        ),
        failure_views(run.failures@) == unreadable(open_policy(), corpus@),
{
    let policy = replace_policy();
    let mut changes: Vec<FileChange> = Vec::new();
    let mut failures: Vec<FileFailure> = Vec::new();
    let mut i: usize = 0;
    while i < corpus.len()
        invariant
            i <= corpus.len(),
            policy == open_policy(),
            change_views(changes@) == changes_of(
                rule_of(*args),
                policy,
                corpus@.take(i as int),
                copies@,
            ),
            failure_views(failures@) == unreadable(policy, corpus@.take(i as int)),
        decreases corpus.len() - i,
    {
        let file = &corpus[i];
        proof {
            let next = corpus@.take(i + 1);
            assert(next.drop_last() == corpus@.take(i as int));
            assert(next.last() == *file);
        }
        if is_admitted(file, &policy) {
            match &file.content {
                Ok(content) => {
                    let ghost so_far = changes@;
                    let backup_ok = i >= copies.len() || copies[i];
                    changes.push(
                        replace_in_memory(
                            args,
                            file.entry.path.as_str(),
                            content.as_slice(),
                            backup_ok,
                        ),
                    );
                    proof {
                        assert(change_views(changes@) == change_views(so_far).push(
                            changes@.last()@,
                        ));
                    }
                },
                Err(failure) => {
                    let ghost so_far = failures@;
                    failures.push(
                        FileFailure {
                            path: copy_str(file.entry.path.as_str()),
                            failure: *failure,
                        },
                    );
                    proof {
                        assert(failure_views(failures@) == failure_views(so_far).push(
                            (file.entry.path@, *failure),
                        ));
                    }
                },
            }
        }
        i = i + 1;
    }
    proof {
        assert(corpus@.take(corpus.len() as int) == corpus@);
    }
    ReplaceRun { changes, failures }
}

} // verus!
