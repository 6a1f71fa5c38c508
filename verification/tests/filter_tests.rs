use file_utility::command::{ListArgs, SearchArgs};
use file_utility::filter::{
    count_policy, failure_ends_walk, file_name_of, filter_entry, is_hidden, is_shown, replace_policy, search_policy,
    should_descend, tree_policy, EntryDecision, Exclusion, FilterPolicy, WalkEntry,
};

fn entry(path: &str, depth: usize) -> WalkEntry {
    WalkEntry {
        path: path.to_string(),
        depth,
        is_dir: false,
        is_symlink: false,
        size: 0,
        modified: None,
        ignored: false,
    }
}

fn dir(path: &str, depth: usize) -> WalkEntry {
    WalkEntry { is_dir: true, ..entry(path, depth) }
}

fn policy(include_hidden: bool, max_depth: Option<usize>, respect_ignore_files: bool) -> FilterPolicy {
    FilterPolicy { include_hidden, max_depth, respect_ignore_files }
}

#[test]
fn hidden_files_follow_the_policy() {
    assert_eq!(
        filter_entry(&entry("root/.env", 1), &policy(false, None, false)),
        EntryDecision::Exclude(Exclusion::Hidden)
    );
    assert_eq!(filter_entry(&entry("root/.env", 1), &policy(true, None, false)), EntryDecision::Include);
    assert_eq!(filter_entry(&entry("root/env", 1), &policy(false, None, false)), EntryDecision::Include);
}

#[test]
fn hidden_is_a_leading_dot_of_the_name() {
    assert!(is_hidden(".env"));
    assert!(is_hidden("a/b/.git"));
    assert!(is_hidden("..."));
    assert!(is_hidden("..a"));
    assert!(!is_hidden("a.b"));
    assert!(!is_hidden(".hidden/visible"));
    assert!(is_hidden("."));
    assert!(is_hidden("a/.."));
    assert!(!is_hidden(""));
    assert!(!is_hidden("dir/"));
}

#[test]
fn name_is_what_follows_the_last_slash() {
    assert_eq!(file_name_of("a/b/c.txt"), "c.txt");
    assert_eq!(file_name_of("c.txt"), "c.txt");
    assert_eq!(file_name_of("dir/"), "");
    assert_eq!(file_name_of("/x"), "x");
}

#[test]
fn directories_and_symlinks_are_never_scanned() {
    let open = policy(true, None, false);
    assert_eq!(filter_entry(&dir("root/sub", 1), &open), EntryDecision::Exclude(Exclusion::Directory));
    let link = WalkEntry { is_symlink: true, ..entry("root/link", 1) };
    assert_eq!(filter_entry(&link, &open), EntryDecision::Exclude(Exclusion::Symlink));
    let both = WalkEntry { is_symlink: true, ..dir("root/link", 1) };
    assert_eq!(filter_entry(&both, &open), EntryDecision::Exclude(Exclusion::Directory));
}

#[test]
fn rules_apply_in_order() {
    let strict = policy(false, Some(1), true);
    let all = WalkEntry { ignored: true, ..entry("root/sub/.x", 2) };
    assert_eq!(filter_entry(&all, &strict), EntryDecision::Exclude(Exclusion::Hidden));
    let ignored_deep = WalkEntry { ignored: true, ..entry("root/sub/x", 2) };
    assert_eq!(filter_entry(&ignored_deep, &strict), EntryDecision::Exclude(Exclusion::Ignored));
    assert_eq!(filter_entry(&entry("root/sub/x", 2), &strict), EntryDecision::Exclude(Exclusion::TooDeep));
    assert_eq!(filter_entry(&entry("root/x", 1), &strict), EntryDecision::Include);
}

#[test]
fn ignore_rules_count_only_when_respected() {
    let ignored = WalkEntry { ignored: true, ..entry("root/target.o", 1) };
    assert_eq!(filter_entry(&ignored, &policy(true, None, false)), EntryDecision::Include);
    assert_eq!(
        filter_entry(&ignored, &policy(true, None, true)),
        EntryDecision::Exclude(Exclusion::Ignored)
    );
}

#[test]
fn depth_limit_includes_the_limit_itself() {
    let limited = policy(true, Some(2), false);
    assert_eq!(filter_entry(&entry("a", 0), &limited), EntryDecision::Include);
    assert_eq!(filter_entry(&entry("r/a/b", 2), &limited), EntryDecision::Include);
    assert_eq!(filter_entry(&entry("r/a/b/c", 3), &limited), EntryDecision::Exclude(Exclusion::TooDeep));
    assert_eq!(filter_entry(&entry("r/a/b/c", 3), &policy(true, None, false)), EntryDecision::Include);
    assert_eq!(filter_entry(&entry("r", 0), &policy(true, Some(0), false)), EntryDecision::Include);
}

#[test]
fn walk_descends_up_to_the_limit() {
    let limited = policy(false, Some(2), true);
    assert!(should_descend(&dir(".", 0), &limited));
    assert!(should_descend(&dir("./a", 1), &limited));
    assert!(!should_descend(&dir("./a/b", 2), &limited));
    assert!(!should_descend(&dir("./.git", 1), &limited));
    assert!(should_descend(&dir("./.git", 1), &policy(true, Some(2), true)));
    assert!(!should_descend(&WalkEntry { ignored: true, ..dir("./target", 1) }, &limited));
    assert!(!should_descend(&entry("./a", 1), &limited));
    assert!(!should_descend(&WalkEntry { is_symlink: true, ..dir("./a", 1) }, &limited));
    // The root is entered whatever its name.
    assert!(should_descend(&dir(".hidden-root", 0), &limited));
    assert!(!should_descend(&dir(".", 0), &policy(true, Some(0), false)));
    assert!(should_descend(&dir("a/b/c/d", 9), &policy(true, None, false)));
}

#[test]
fn each_command_has_its_policy() {
    let args = SearchArgs {
        path: "x/*".to_string(),
        pattern: "p".to_string(),
        case_insensitive: false,
        hidden: true,
        color: false,
    };
    assert_eq!(search_policy(&args), policy(true, None, false));
    assert_eq!(search_policy(&SearchArgs { hidden: false, ..args }), policy(false, None, false));
    assert_eq!(count_policy(), policy(true, None, false));
    assert_eq!(replace_policy(), policy(true, None, false));
    let list = ListArgs { path: ".".to_string(), depth: Some(3), human_readable: false, color: false };
    assert_eq!(tree_policy(&list), policy(false, Some(3), true));
    assert_eq!(tree_policy(&ListArgs { depth: None, ..list }), policy(false, None, true));
}

#[test]
fn walk_shows_what_no_rule_hides() {
    let strict = policy(false, Some(1), true);
    assert!(is_shown(&dir(".", 0), &strict));
    assert!(is_shown(&dir(".hidden-root", 0), &strict));
    assert!(is_shown(&dir("./src", 1), &strict));
    assert!(is_shown(&entry("./a.txt", 1), &strict));
    assert!(!is_shown(&entry("./.env", 1), &strict));
    assert!(!is_shown(&entry("./src/a.txt", 2), &strict));
    assert!(!is_shown(&WalkEntry { ignored: true, ..entry("./a.o", 1) }, &strict));
    assert!(is_shown(&entry("./.env", 1), &policy(true, None, false)));
}

#[test]
fn only_a_failure_at_the_root_ends_the_walk() {
    assert!(failure_ends_walk(Some(0)));
    assert!(!failure_ends_walk(Some(1)));
    assert!(!failure_ends_walk(Some(7)));
    assert!(!failure_ends_walk(None));
}
