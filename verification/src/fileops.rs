//! Decisions of the plain file commands: what removing and copying do,
//! given what the file system says of the paths involved.

use vstd::prelude::*;
use crate::command::{CopyArgs, RemoveArgs};
use crate::text::chars_of;

verus! {

/// What the file system says of a path.
#[derive(Clone, Copy, Debug, PartialEq, Eq, Structural)]
pub struct PathStatus {
    pub exists: bool,
    pub is_file: bool,
    pub is_dir: bool,
}

/// What removing does.
#[derive(Clone, Copy, Debug, PartialEq, Eq, Structural)]
pub enum RemoveAction {
    /// Remove the file at the path.
    RemoveFile,
    /// Remove the files below the directory, at any depth, and keep the
    /// directories.
    RemoveFilesWithin,
    /// Remove the directories directly in the directory.
    RemoveDirsWithin,
    /// Remove the directory with all that is in it.
    RemoveTree,
    /// Leave everything as it is.
    Nothing,
}

/// Why nothing is removed.
#[derive(Clone, Copy, Debug, PartialEq, Eq, Structural)]
pub enum RemoveError {
    /// The path does not exist.
    NotFound,
}

/// What the option of a remove command asks for in a directory.
pub open spec fn directory_action(option: Seq<char>) -> RemoveAction {
    if option == seq!['-', 'f'] {
        RemoveAction::RemoveFilesWithin
    } else if option == seq!['-', 'r'] {
        RemoveAction::RemoveDirsWithin
    } else if option == seq!['-', 'r', 'f'] {
        RemoveAction::RemoveTree
    } else {
        RemoveAction::Nothing
    }
}

/// What removing a path does: a missing path is an error, a file is
/// removed, a directory is treated as the option says, and anything else
/// is left alone.
pub open spec fn remove_action(target: PathStatus, option: Seq<char>) -> Result<
    RemoveAction,
    RemoveError,
> {
    if !target.exists {
        Err(RemoveError::NotFound)
    } else if target.is_file {
        Ok(RemoveAction::RemoveFile)
    } else if target.is_dir {
        Ok(directory_action(option))
    } else {
        Ok(RemoveAction::Nothing)
    }
}

/// Decides what a remove command does, given what is at its path.
pub fn remove(args: &RemoveArgs, target: PathStatus) -> (r: Result<RemoveAction, RemoveError>)
    ensures
        r == remove_action(target, args.option@),
{
    if !target.exists {
        return Err(RemoveError::NotFound);
    }
    if target.is_file {
        return Ok(RemoveAction::RemoveFile);
    }
    if !target.is_dir {
        return Ok(RemoveAction::Nothing);
    }
    let option = chars_of(args.option.as_str());
    if option.len() == 2 && option[0] == '-' && option[1] == 'f' {
        proof {
            assert(option@ =~= seq!['-', 'f']);
        }
        Ok(RemoveAction::RemoveFilesWithin)
    } else if option.len() == 2 && option[0] == '-' && option[1] == 'r' {
        proof {
            assert(option@ =~= seq!['-', 'r']);
        }
        Ok(RemoveAction::RemoveDirsWithin)
    } else if option.len() == 3 && option[0] == '-' && option[1] == 'r' && option[2] == 'f' {
        proof {
            assert(option@ =~= seq!['-', 'r', 'f']);
        }
        Ok(RemoveAction::RemoveTree)
    } else {
        proof {
            if option@ == seq!['-', 'f'] {
                assert(option@[1] == 'f');
            }
            if option@ == seq!['-', 'r'] {
                assert(option@[1] == 'r');
            }
            if option@ == seq!['-', 'r', 'f'] {
                assert(option@[1] == 'r' && option@[2] == 'f');
            }
        }
        Ok(RemoveAction::Nothing)
    }
}

/// Whether the name of an archive entry stands for a directory: it ends
/// in `/`.
pub fn names_directory(name: &str) -> (r: bool)
    ensures
        r == (name@.len() > 0 && name@.last() == '/'),
{
    let chars = chars_of(name);
    chars.len() > 0 && chars[chars.len() - 1] == '/'
}

/// What is known of the two paths of a copy command.
#[derive(Clone, Copy, Debug, PartialEq, Eq, Structural)]
pub struct CopyFacts {
    pub source: PathStatus,
    pub destination: PathStatus,
    /// The source path ends in a file name.
    pub source_has_name: bool,
    /// The destination is a directory that already holds an entry with
    /// the name of the source.
    pub name_taken: bool,
}

/// The characters that count as white space around an answer.
pub open spec fn is_white_space(c: char) -> bool {
    let code = c as u32;
    ||| 0x09 <= code <= 0x0D
    ||| code == 0x20
    ||| code == 0x85
    ||| code == 0xA0
    ||| code == 0x1680
    ||| 0x2000 <= code <= 0x200A
    ||| code == 0x2028
    ||| code == 0x2029
    ||| code == 0x202F
    ||| code == 0x205F
    ||| code == 0x3000
}

/// An answer says yes when it is a single `y` or `Y` with nothing but
/// white space around it.
pub open spec fn says_yes(answer: Seq<char>) -> bool {
    exists|i: int|
        0 <= i < answer.len() && (answer[i] == 'y' || answer[i] == 'Y') && forall|j: int|
            0 <= j < answer.len() && j != i ==> is_white_space(#[trigger] answer[j])
}

fn white_space(c: char) -> (r: bool)
    ensures
        r == is_white_space(c),
{
    let code = c as u32;
    (0x09 <= code && code <= 0x0D) || code == 0x20 || code == 0x85 || code == 0xA0 || code
        == 0x1680 || (0x2000 <= code && code <= 0x200A) || code == 0x2028 || code == 0x2029 || code
        == 0x202F || code == 0x205F || code == 0x3000
}

/// Whether the user's answer to a yes-or-no question says yes.
pub fn is_yes(answer: &str) -> (r: bool)
    ensures
        r == says_yes(answer@),
{
    let chars = chars_of(answer);
    let mut found: Option<usize> = None;
    let mut i: usize = 0;
    while i < chars.len()
        invariant
            i <= chars.len(),
            chars@ == answer@,
            match found {
                Some(k) => k < i && (chars[k as int] == 'y' || chars[k as int] == 'Y'),
                None => true,
            },
            forall|j: int| 0 <= j < i && found != Some(j as usize) ==> is_white_space(
                #[trigger] chars@[j],
            ),
        decreases chars.len() - i,
    {
        let c = chars[i];
        if !white_space(c) {
            if (c == 'y' || c == 'Y') && found.is_none() {
                found = Some(i);
            } else {
                proof {
                    assert(!is_white_space('y') && !is_white_space('Y'));
                    assert forall|w: int|
                        !(0 <= w < answer@.len() && (answer@[w] == 'y' || answer@[w] == 'Y')
                            && forall|j: int|
                            0 <= j < answer@.len() && j != w ==> is_white_space(
                                #[trigger] answer@[j],
                            )) by {
                        if 0 <= w < answer@.len() && (answer@[w] == 'y' || answer@[w] == 'Y') {
                            if w != i {
                                assert(!is_white_space(answer@[i as int]));
                            } else {
                                let k = found->0 as int;
                                assert(!is_white_space(answer@[k]));
                            }
                        }
                    }
                }
                return false;
            }
        }
        i = i + 1;
    }
    match found {
        Some(k) => {
            proof {
                assert(0 <= k < answer@.len() && (answer@[k as int] == 'y' || answer@[k as int]
                    == 'Y'));
            }
            true
        },
        None => {
            proof {
                assert(!is_white_space('y') && !is_white_space('Y'));
            }
            false
        },
    }
}

/// Why nothing is copied.
#[derive(Clone, Copy, Debug, PartialEq, Eq, Structural)]
pub enum CopyError {
    SourceMissing,
    NoFileName,
    /// The source is a directory, and the copy was not asked to be
    /// recursive.
    IsDirectory,
    /// The user declined to overwrite.
    Aborted,
}

/// What copying does next.
#[derive(Clone, Copy, Debug, PartialEq, Eq, Structural)]
pub enum CopyStep {
    /// Ask whether the existing file may be overwritten.
    AskOverwrite,
    /// Copy the source file: onto the destination where that is an
    /// existing file; otherwise to no path at all, which the file system
    /// refuses.
    CopyFile { onto_destination: bool },
    /// Copy the source directory, with all that is in it, to the
    /// destination.
    CopyTree,
    /// Stop with an error.
    Fail(CopyError),
    /// Stop without copying and without an error.
    Stop,
}

/// Whether copying a file would overwrite one: the destination is a file,
/// or a directory where the name is taken.
pub open spec fn would_overwrite(facts: CopyFacts) -> bool {
    facts.destination.is_file || (facts.destination.is_dir && facts.destination.exists
        && facts.name_taken)
}

/// The first step of a copy.
pub open spec fn first_copy_step(recursive: bool, facts: CopyFacts) -> CopyStep {
    if !facts.source.exists {
        CopyStep::Fail(CopyError::SourceMissing)
    } else if !facts.source.is_file {
        if recursive {
            CopyStep::CopyTree
        } else {
            CopyStep::Fail(CopyError::IsDirectory)
        }
    } else if facts.destination.is_file {
        CopyStep::AskOverwrite
    } else if facts.destination.is_dir && facts.destination.exists && !facts.source_has_name {
        CopyStep::Fail(CopyError::NoFileName)
    } else if would_overwrite(facts) {
        CopyStep::AskOverwrite
    } else {
        CopyStep::CopyFile { onto_destination: false }
    }
}

/// The step after the user answered: a yes copies; a no to overwriting
/// the destination file is an error, a no to overwriting a file in the
/// destination directory ends the copy quietly.
pub open spec fn copy_step_after_answer(facts: CopyFacts, yes: bool) -> CopyStep {
    if yes {
        CopyStep::CopyFile { onto_destination: facts.destination.is_file }
    } else if facts.destination.is_file {
        CopyStep::Fail(CopyError::Aborted)
    } else {
        CopyStep::Stop
    }
}

/// Decides the first step of a copy command.
pub fn copy(args: &CopyArgs, facts: &CopyFacts) -> (step: CopyStep)
    ensures
        step == first_copy_step(args.recursive, *facts),
{
    if !facts.source.exists {
        CopyStep::Fail(CopyError::SourceMissing)
    } else if !facts.source.is_file {
        if args.recursive {
            CopyStep::CopyTree
        } else {
            CopyStep::Fail(CopyError::IsDirectory)
        }
    } else if facts.destination.is_file {
        CopyStep::AskOverwrite
    } else if facts.destination.is_dir && facts.destination.exists {
        if !facts.source_has_name {
            CopyStep::Fail(CopyError::NoFileName)
        } else if facts.name_taken {
            CopyStep::AskOverwrite
        } else {
            CopyStep::CopyFile { onto_destination: false }
        }
    } else {
        CopyStep::CopyFile { onto_destination: false }
    }
}

/// Decides the step after the user answered the question about
/// overwriting.
pub fn copy_after_answer(facts: &CopyFacts, yes: bool) -> (step: CopyStep)
    ensures
        step == copy_step_after_answer(*facts, yes),
{
    if yes {
        CopyStep::CopyFile { onto_destination: facts.destination.is_file }
    } else if facts.destination.is_file {
        CopyStep::Fail(CopyError::Aborted)
    } else {
        CopyStep::Stop
    }
}

} // verus!
