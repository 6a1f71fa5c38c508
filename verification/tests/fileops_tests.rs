use file_utility::command::{CopyArgs, RemoveArgs};
use file_utility::fileops::{
    copy, copy_after_answer, is_yes, names_directory, remove, CopyError, CopyFacts, CopyStep,
    PathStatus, RemoveAction, RemoveError,
};

const FILE: PathStatus = PathStatus { exists: true, is_file: true, is_dir: false };
const DIRECTORY: PathStatus = PathStatus { exists: true, is_file: false, is_dir: true };
const MISSING: PathStatus = PathStatus { exists: false, is_file: false, is_dir: false };
const OTHER: PathStatus = PathStatus { exists: true, is_file: false, is_dir: false };

fn remove_args(option: &str) -> RemoveArgs {
    RemoveArgs { path: "target".to_string(), option: option.to_string() }
}

fn copy_args(recursive: bool) -> CopyArgs {
    CopyArgs { path_buf: "from".to_string(), copy_des: "to".to_string(), recursive }
}

fn facts(source: PathStatus, destination: PathStatus) -> CopyFacts {
    CopyFacts { source, destination, source_has_name: true, name_taken: false }
}

#[test]
fn remove_needs_an_existing_path() {
    assert_eq!(remove(&remove_args("-rf"), MISSING), Err(RemoveError::NotFound));
}

#[test]
fn remove_takes_a_file_whatever_the_option() {
    for option in ["-f", "-r", "-rf", "", "x"] {
        assert_eq!(remove(&remove_args(option), FILE), Ok(RemoveAction::RemoveFile));
    }
}

#[test]
fn remove_treats_a_directory_by_option() {
    assert_eq!(remove(&remove_args("-f"), DIRECTORY), Ok(RemoveAction::RemoveFilesWithin));
    assert_eq!(remove(&remove_args("-r"), DIRECTORY), Ok(RemoveAction::RemoveDirsWithin));
    assert_eq!(remove(&remove_args("-rf"), DIRECTORY), Ok(RemoveAction::RemoveTree));
    for option in ["", "-", "-fr", "-rff", "rf", "-R", "-x", "--"] {
        assert_eq!(remove(&remove_args(option), DIRECTORY), Ok(RemoveAction::Nothing));
    }
    assert_eq!(remove(&remove_args("-rf"), OTHER), Ok(RemoveAction::Nothing));
}

#[test]
fn copy_needs_an_existing_source() {
    assert_eq!(copy(&copy_args(true), &facts(MISSING, FILE)), CopyStep::Fail(CopyError::SourceMissing));
}

#[test]
fn copy_of_a_directory_must_be_recursive() {
    assert_eq!(copy(&copy_args(true), &facts(DIRECTORY, MISSING)), CopyStep::CopyTree);
    assert_eq!(
        copy(&copy_args(false), &facts(DIRECTORY, MISSING)),
        CopyStep::Fail(CopyError::IsDirectory)
    );
}

#[test]
fn copy_asks_before_overwriting() {
    let onto_file = facts(FILE, FILE);
    assert_eq!(copy(&copy_args(false), &onto_file), CopyStep::AskOverwrite);
    assert_eq!(copy_after_answer(&onto_file, true), CopyStep::CopyFile { onto_destination: true });
    assert_eq!(copy_after_answer(&onto_file, false), CopyStep::Fail(CopyError::Aborted));
    let into_dir = CopyFacts { name_taken: true, ..facts(FILE, DIRECTORY) };
    assert_eq!(copy(&copy_args(false), &into_dir), CopyStep::AskOverwrite);
    assert_eq!(copy_after_answer(&into_dir, true), CopyStep::CopyFile { onto_destination: false });
    assert_eq!(copy_after_answer(&into_dir, false), CopyStep::Stop);
}

#[test]
fn copy_into_a_directory_needs_a_file_name() {
    let nameless = CopyFacts { source_has_name: false, ..facts(FILE, DIRECTORY) };
    assert_eq!(copy(&copy_args(false), &nameless), CopyStep::Fail(CopyError::NoFileName));
    assert_eq!(
        copy(&copy_args(false), &facts(FILE, DIRECTORY)),
        CopyStep::CopyFile { onto_destination: false }
    );
    assert_eq!(
        copy(&copy_args(false), &facts(FILE, MISSING)),
        CopyStep::CopyFile { onto_destination: false }
    );
}

#[test]
fn archive_directories_end_in_a_slash() {
    assert!(names_directory("dir/"));
    assert!(names_directory("a/b/"));
    assert!(names_directory("/"));
    assert!(!names_directory("a/b"));
    assert!(!names_directory(""));
}

#[test]
fn yes_is_a_single_y_among_white_space() {
    for answer in ["y", "Y", "y\n", " y \r\n", "\t\u{a0}Y\u{3000}", "\u{2003}y"] {
        assert!(is_yes(answer), "{:?}", answer);
    }
    for answer in ["", "\n", "n", "yes", "y y", "yy", "Yy", "-y", "y.", "\u{200b}y", "ｙ"] {
        assert!(!is_yes(answer), "{:?}", answer);
    }
}

#[test]
fn yes_agrees_with_trimming_and_lowercasing() {
    let mut code = 0u32;
    while code <= 0x3100 {
        if let Some(c) = char::from_u32(code) {
            for answer in [format!("{}", c), format!("{}y", c), format!("y{}", c), format!("{}Y{}", c, c)] {
                assert_eq!(is_yes(&answer), answer.trim().to_lowercase() == "y", "{:?}", answer);
            }
        }
        code += 1;
    }
    for c in ['\u{feff}', '\u{e000}', '\u{ffff}', '\u{10000}', '\u{10ffff}', '\u{212a}', '\u{1e99}'] {
        for answer in [format!("{}", c), format!("{}y", c), format!("y{}", c)] {
            assert_eq!(is_yes(&answer), answer.trim().to_lowercase() == "y", "{:?}", answer);
        }
    }
}
