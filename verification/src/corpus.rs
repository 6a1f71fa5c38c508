//! A corpus: the entries that a walk found, each with what reading it gave.

use vstd::prelude::*;
use crate::filter::{decision, filter_entry, EntryDecision, FilterPolicy, WalkEntry};

verus! {

/// Why a file could not be read.
#[derive(Clone, Copy, Debug, PartialEq, Eq, Structural)]
pub enum ReadFailure {
    NotFound,
    PermissionDenied,
    /// The file as a whole is not valid text.
    InvalidText,
    Other,
}

/// One entry of a walk together with its content, or with the reason why
/// there is none.
#[derive(Debug)]
pub struct CorpusFile {
    pub entry: WalkEntry,
    pub content: Result<Vec<u8>, ReadFailure>,
}

/// A file that could not be read, as the reports name it.
#[derive(Debug)]
pub struct FileFailure {
    pub path: String,
    pub failure: ReadFailure,
}

/// The failures as pairs of path and cause.
pub open spec fn failure_views(failures: Seq<FileFailure>) -> Seq<(Seq<char>, ReadFailure)> {
    failures.map_values(|f: FileFailure| (f.path@, f.failure))
}

/// Whether the entry of a corpus file takes part under the policy.
pub open spec fn admitted(file: CorpusFile, policy: FilterPolicy) -> bool {
    decision(file.entry, policy) == EntryDecision::Include
}

/// The failure that one file of the corpus is reported with: its path and
/// the cause, where the file takes part but could not be read.
pub open spec fn failure_of(policy: FilterPolicy, file: CorpusFile) -> Option<
    (Seq<char>, ReadFailure),
> {
    if admitted(file, policy) && file.content is Err {
        Some((file.entry.path@, file.content->Err_0))
    } else {
        None
    }
}

/// The files of a corpus that take part but could not be read, each with
/// the cause, in the order of the walk.
pub open spec fn unreadable(policy: FilterPolicy, corpus: Seq<CorpusFile>) -> Seq<
    (Seq<char>, ReadFailure),
>
    decreases corpus.len(),
{
    if corpus.len() == 0 {
        Seq::empty()
    } else {
        let before = unreadable(policy, corpus.drop_last());
        match failure_of(policy, corpus.last()) {
            Some(failure) => before.push(failure),
            None => before,
        }
    }
}

/// Whether the entry of a corpus file takes part under the policy.
pub fn is_admitted(file: &CorpusFile, policy: &FilterPolicy) -> (r: bool)
    ensures
        r == admitted(*file, *policy),
{
    filter_entry(&file.entry, policy) == EntryDecision::Include
}

} // verus!
