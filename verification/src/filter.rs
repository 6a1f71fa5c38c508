//! The entry filter: which of the entries that a walk discovers take part
//! in an operation.

use vstd::prelude::*;
use crate::command::{ListArgs, SearchArgs};
use crate::text::{chars_of, last_index_of, lemma_last_index_of, rfind_char, substring};

verus! {

/// How a walk treats hidden files, depth and ignore files. It stays the
/// same for the whole of one traversal.
#[derive(Clone, Copy, Debug, PartialEq, Eq, Structural)]
pub struct FilterPolicy {
    pub include_hidden: bool,
    pub max_depth: Option<usize>,
    pub respect_ignore_files: bool,
}

/// One file-system object met during a walk.
#[derive(Clone, Debug)]
pub struct WalkEntry {
    pub path: String,
    /// Depth below the root of the walk; the root itself has depth 0.
    pub depth: usize,
    pub is_dir: bool,
    pub is_symlink: bool,
    /// Size in bytes.
    pub size: u64,
    /// Time of the last change, in seconds since the epoch, where known.
    pub modified: Option<u64>,
    /// An ignore-file rule of an ancestor directory excludes the entry.
    pub ignored: bool,
}

/// Why an entry is left out.
#[derive(Clone, Copy, Debug, PartialEq, Eq, Structural)]
pub enum Exclusion {
    Directory,
    Symlink,
    Hidden,
    Ignored,
    TooDeep,
}

/// Whether an entry takes part.
#[derive(Clone, Copy, Debug, PartialEq, Eq, Structural)]
pub enum EntryDecision {
    Include,
    Exclude(Exclusion),
}

/// The name of an entry: what follows the last `/` of its path.
pub open spec fn entry_name(path: Seq<char>) -> Seq<char> {
    path.skip(last_index_of(path, '/') + 1)
}

/// A name is hidden when it starts with a dot.
pub open spec fn is_hidden_name(name: Seq<char>) -> bool {
    name.len() > 0 && name[0] == '.'
}

/// The rules on hidden files, ignore files and depth, in this order: the
/// first rule that excludes the entry, if any does.
pub open spec fn hidden_from_walk(
    path: Seq<char>,
    depth: usize,
    ignored: bool,
    policy: FilterPolicy,
) -> Option<Exclusion> {
    if !policy.include_hidden && is_hidden_name(entry_name(path)) {
        Some(Exclusion::Hidden)
    } else if policy.respect_ignore_files && ignored {
        Some(Exclusion::Ignored)
    } else if policy.max_depth is Some && depth > policy.max_depth->0 {
        Some(Exclusion::TooDeep)
    } else {
        None
    }
}

/// Whether an entry takes part in an operation on file contents.
/// Directories and symlinks never do; then come the rules on hidden files,
/// ignore files and depth.
pub open spec fn decision(entry: WalkEntry, policy: FilterPolicy) -> EntryDecision {
    if entry.is_dir {
        EntryDecision::Exclude(Exclusion::Directory)
    } else if entry.is_symlink {
        EntryDecision::Exclude(Exclusion::Symlink)
    } else {
        match hidden_from_walk(entry.path@, entry.depth, entry.ignored, policy) {
            Some(why) => EntryDecision::Exclude(why),
            None => EntryDecision::Include,
        }
    }
}

/// Whether a walk goes into a directory: the root always, any other
/// directory where no rule hides it and it lies above the depth limit, so
/// that entries at the limit itself are still reached.
pub open spec fn descends(entry: WalkEntry, policy: FilterPolicy) -> bool {
    &&& entry.is_dir
    &&& !entry.is_symlink
    &&& shown(entry, policy)
    &&& policy.max_depth is Some ==> entry.depth < policy.max_depth->0
}

/// The name of the entry at `path`.
pub fn file_name_of(path: &str) -> (name: String)
    ensures
        name@ == entry_name(path@),
{
    let chars = chars_of(path);
    proof {
        lemma_last_index_of(chars@, '/');
    }
    let first = match rfind_char(&chars, '/') {
        Some(k) => {
            assert(k < chars.len());
            k + 1
        },
        None => 0,
    };
    substring(&chars, first, chars.len())
}

/// Whether the name of the entry at `path` is hidden.
pub fn is_hidden(path: &str) -> (r: bool)
    ensures
        r == is_hidden_name(entry_name(path@)),
{
    let chars = chars_of(path);
    proof {
        lemma_last_index_of(chars@, '/');
    }
    let first = match rfind_char(&chars, '/') {
        Some(k) => {
            assert(k < chars.len());
            k + 1
        },
        None => 0,
    };
    proof {
        let name = entry_name(path@);
        assert(name.len() == chars.len() - first);
        assert(name.len() > 0 ==> name[0] == chars@[first as int]);
    }
    first < chars.len() && chars[first] == '.'
}

fn walk_exclusion(entry: &WalkEntry, policy: &FilterPolicy) -> (r: Option<Exclusion>)
    ensures
        r == hidden_from_walk(entry.path@, entry.depth, entry.ignored, *policy),
{
    if !policy.include_hidden && is_hidden(entry.path.as_str()) {
        return Some(Exclusion::Hidden);
    }
    if policy.respect_ignore_files && entry.ignored {
        return Some(Exclusion::Ignored);
    }
    match policy.max_depth {
        Some(limit) => {
            if entry.depth > limit {
                return Some(Exclusion::TooDeep);
            }
        },
        None => {},
    }
    None
}

/// Decides whether an entry takes part in an operation on file contents.
pub fn filter_entry(entry: &WalkEntry, policy: &FilterPolicy) -> (r: EntryDecision)
    ensures
        r == decision(*entry, *policy),
{
    if entry.is_dir {
        EntryDecision::Exclude(Exclusion::Directory)
    } else if entry.is_symlink {
        EntryDecision::Exclude(Exclusion::Symlink)
    } else {
        match walk_exclusion(entry, policy) {
            Some(why) => EntryDecision::Exclude(why),
            None => EntryDecision::Include,
        }
    }
}

/// Whether a walk shows an entry at all: the root always, any other entry
/// unless a rule on hidden files, ignore files or depth excludes it.
pub open spec fn shown(entry: WalkEntry, policy: FilterPolicy) -> bool {
    entry.depth == 0 || hidden_from_walk(entry.path@, entry.depth, entry.ignored, policy) is None
}

/// Decides whether a walk shows an entry at all.
pub fn is_shown(entry: &WalkEntry, policy: &FilterPolicy) -> (r: bool)
    ensures
        r == shown(*entry, *policy),
{
    entry.depth == 0 || walk_exclusion(entry, policy).is_none()
}

/// Decides whether a walk goes into a directory.
pub fn should_descend(entry: &WalkEntry, policy: &FilterPolicy) -> (r: bool)
    ensures
        r == descends(*entry, *policy),
{
    if !entry.is_dir || entry.is_symlink {
        return false;
    }
    if !is_shown(entry, policy) {
        return false;
    }
    match policy.max_depth {
        Some(limit) => entry.depth < limit,
        None => true,
    }
}

/// Whether a failure met during a walk ends the walk: only a failure at
/// the root does; a failure at any other entry, or one that names no
/// depth, is reported and the walk goes on.
pub fn failure_ends_walk(depth: Option<usize>) -> (r: bool)
    ensures
        r == (depth == Some(0usize)),
{
    match depth {
        Some(d) => d == 0,
        None => false,
    }
}

/// The policy of a search: hidden files as the command says, no depth
/// limit, ignore files not consulted.
pub fn search_policy(args: &SearchArgs) -> (policy: FilterPolicy)
    ensures
        policy == (FilterPolicy {
            include_hidden: args.hidden,
            max_depth: None,
            respect_ignore_files: false,
        }),
{
    FilterPolicy { include_hidden: args.hidden, max_depth: None, respect_ignore_files: false }
}

/// The policy that takes every regular file: hidden files included, no
/// depth limit, ignore files not consulted.
pub open spec fn open_policy() -> FilterPolicy {
    FilterPolicy { include_hidden: true, max_depth: None, respect_ignore_files: false }
}

/// The policy of a count: every regular file takes part.
pub fn count_policy() -> (policy: FilterPolicy)
    ensures
        policy == open_policy(),
{
    FilterPolicy { include_hidden: true, max_depth: None, respect_ignore_files: false }
}

/// The policy of a replace: every regular file takes part.
pub fn replace_policy() -> (policy: FilterPolicy)
    ensures
        policy == open_policy(),
{
    FilterPolicy { include_hidden: true, max_depth: None, respect_ignore_files: false }
}

/// The policy of a tree listing: hidden files left out, ignore files
/// respected, depth limited as the command says.
pub fn tree_policy(args: &ListArgs) -> (policy: FilterPolicy)
    ensures
        policy == (FilterPolicy {
            include_hidden: false,
            max_depth: args.depth,
            respect_ignore_files: true,
        }),
{
    FilterPolicy { include_hidden: false, max_depth: args.depth, respect_ignore_files: true }
}

} // verus!
