use file_utility::command::ListArgs;
use file_utility::filter::WalkEntry;
use file_utility::tree::{
    entry_color, format_size, list_item, run_tree, tree_line, EntryColor, TreeItem,
};

fn item(display_path: &str, depth: usize, is_dir: bool, size: u64) -> TreeItem {
    TreeItem {
        entry: WalkEntry {
            path: format!("root/{}", display_path),
            depth,
            is_dir,
            is_symlink: false,
            size,
            modified: None,
            ignored: false,
        },
        display_path: display_path.to_string(),
    }
}

fn list_args(depth: Option<usize>, human_readable: bool) -> ListArgs {
    ListArgs { path: "root".to_string(), depth, human_readable, color: true }
}

#[test]
fn test_format_size() {
    assert_eq!(format_size(1023, true), "1023.00 B");
    assert_eq!(format_size(1024, true), "1.00 KB");
    assert_eq!(format_size(1_500_000, true), "1.43 MB");
    assert_eq!(format_size(3_000_000_000, true), "2.79 GB");
}

#[test]
fn format_size_plain_counts_bytes() {
    assert_eq!(format_size(0, false), "0 B");
    assert_eq!(format_size(1024, false), "1024 B");
    assert_eq!(format_size(u64::MAX, false), "18446744073709551615 B");
}

#[test]
fn format_size_stops_at_terabytes() {
    assert_eq!(format_size(0, true), "0.00 B");
    assert_eq!(format_size(1u64 << 40, true), "1.00 TB");
    assert_eq!(format_size(1u64 << 50, true), "1024.00 TB");
    assert_eq!(format_size(u64::MAX, true), "16777216.00 TB");
}

#[test]
fn format_size_rounds_ties_to_even() {
    // 1029.12 bytes would be 1.005 KB; 1029 is below it, 1030 above.
    assert_eq!(format_size(1029, true), "1.00 KB");
    assert_eq!(format_size(1030, true), "1.01 KB");
    // 1.125 KB and 1.375 KB are exact ties.
    assert_eq!(format_size(1152, true), "1.12 KB");
    assert_eq!(format_size(1408, true), "1.38 KB");
}

#[test]
fn format_size_agrees_with_floating_point() {
    let units = ["B", "KB", "MB", "GB", "TB"];
    let mut size: u64 = 1;
    let mut step: u64 = 1;
    while size < u64::MAX / 3 {
        let mut value = size as f64;
        let mut unit = 0;
        while value >= 1024.0 && unit < units.len() - 1 {
            value /= 1024.0;
            unit += 1;
        }
        assert_eq!(format_size(size, true), format!("{:.2} {}", value, units[unit]));
        size += step;
        step = step * 3 / 2 + 1;
    }
    for size in [
        (1u64 << 53) + 1,
        (1u64 << 53) + 3,
        (1u64 << 60) + 64,
        (1u64 << 60) + 192,
        u64::MAX - 1023,
        u64::MAX,
    ] {
        let mut value = size as f64;
        let mut unit = 0;
        while value >= 1024.0 && unit < units.len() - 1 {
            value /= 1024.0;
            unit += 1;
        }
        assert_eq!(format_size(size, true), format!("{:.2} {}", value, units[unit]));
    }
}

#[test]
fn tree_line_indents_by_depth() {
    assert_eq!(tree_line("", 0, true, 0, false), "\u{251c}\u{2500}  (DIR)");
    assert_eq!(tree_line("src/a.txt", 2, false, 2048, true), "    \u{251c}\u{2500} src/a.txt (2.00 KB)");
    assert_eq!(tree_line("b.log", 1, false, 7, false), "  \u{251c}\u{2500} b.log (7 B)");
}

#[test]
fn directories_are_blue_files_green() {
    assert_eq!(entry_color(true), EntryColor::Blue);
    assert_eq!(entry_color(false), EntryColor::Green);
}

#[test]
fn tree_lists_the_walk_in_order() {
    let items = vec![
        item("", 0, true, 4096),
        item("a.txt", 1, false, 22),
        item("src", 1, true, 4096),
        item("src/lib.rs", 2, false, 2048),
    ];
    let lines = run_tree(&list_args(None, true), &items);
    let shown: Vec<(String, EntryColor)> = lines.into_iter().map(|l| (l.text, l.color)).collect();
    assert_eq!(
        shown,
        vec![
            ("\u{251c}\u{2500}  (DIR)".to_string(), EntryColor::Blue),
            ("  \u{251c}\u{2500} a.txt (22.00 B)".to_string(), EntryColor::Green),
            ("  \u{251c}\u{2500} src (DIR)".to_string(), EntryColor::Blue),
            ("    \u{251c}\u{2500} src/lib.rs (2.00 KB)".to_string(), EntryColor::Green),
        ]
    );
}

#[test]
fn tree_leaves_out_hidden_ignored_and_deep_entries() {
    let mut ignored = item("target", 1, true, 0);
    ignored.entry.ignored = true;
    let items = vec![
        item("", 0, true, 0),
        item(".git", 1, true, 0),
        ignored,
        item("a", 1, true, 0),
        item("a/b", 2, false, 5),
        item("a/c/d", 3, false, 5),
    ];
    let lines = run_tree(&list_args(Some(2), false), &items);
    let texts: Vec<String> = lines.into_iter().map(|l| l.text).collect();
    assert_eq!(
        texts,
        vec![
            "\u{251c}\u{2500}  (DIR)".to_string(),
            "  \u{251c}\u{2500} a (DIR)".to_string(),
            "    \u{251c}\u{2500} a/b (5 B)".to_string(),
        ]
    );
    assert!(list_item(&list_args(Some(2), false), &item(".env", 1, false, 1)).is_none());
    assert!(list_item(&list_args(None, false), &item("deep/er/file", 3, false, 1)).is_some());
}
