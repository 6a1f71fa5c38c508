use file_utility::command::SearchArgs;
use file_utility::corpus::{CorpusFile, ReadFailure};
use file_utility::filter::WalkEntry;
use file_utility::lines::LineRange;
use file_utility::pattern::{CompiledPattern, PatternError, PatternKind};
use file_utility::search::{
    plan_search, run_search, search_content, search_line, segment_line, FileReport, LineFinding,
    Segment,
};
use file_utility::span::MatchSpan;

fn file(path: &str, content: &[u8]) -> CorpusFile {
    CorpusFile {
        entry: WalkEntry {
            path: path.to_string(),
            depth: 1,
            is_dir: false,
            is_symlink: false,
            size: content.len() as u64,
            modified: None,
            ignored: false,
        },
        content: Ok(content.to_vec()),
    }
}

fn search_args(path: &str, pattern: &str) -> SearchArgs {
    SearchArgs {
        path: path.to_string(),
        pattern: pattern.to_string(),
        case_insensitive: false,
        hidden: false,
        color: true,
    }
}

fn rebuilt(text: &str, segments: &[Segment]) -> String {
    segments.iter().map(|s| &text[s.start..s.end]).collect()
}

fn scanned_paths(reports: &[FileReport]) -> Vec<String> {
    reports
        .iter()
        .map(|r| match r {
            FileReport::Scanned { path, .. } => path.clone(),
            FileReport::Failed { path, .. } => format!("failed:{}", path),
        })
        .collect()
}

#[test]
fn segments_surround_each_span() {
    let spans = vec![MatchSpan { start: 0, end: 5 }, MatchSpan { start: 12, end: 17 }];
    let segments = segment_line(&spans, 22);
    assert_eq!(
        segments,
        vec![
            Segment { start: 0, end: 0, highlighted: false },
            Segment { start: 0, end: 5, highlighted: true },
            Segment { start: 5, end: 12, highlighted: false },
            Segment { start: 12, end: 17, highlighted: true },
            Segment { start: 17, end: 22, highlighted: false },
        ]
    );
    assert_eq!(segment_line(&vec![], 3), vec![Segment { start: 0, end: 3, highlighted: false }]);
}

#[test]
fn segments_rebuild_the_line() {
    let cases = [("l+", "hello world"), ("o", "foo boo"), ("é", "héé"), ("x*", "axxb"), ("^", "abc")];
    for (source, text) in cases {
        let pattern = CompiledPattern::compile(source, PatternKind::Regex, false).unwrap();
        let spans = pattern.find_spans(text);
        let segments = segment_line(&spans, text.len());
        assert_eq!(rebuilt(text, &segments), text);
        let highlighted: Vec<MatchSpan> = segments
            .iter()
            .filter(|s| s.highlighted)
            .map(|s| MatchSpan { start: s.start, end: s.end })
            .collect();
        assert_eq!(highlighted, spans);
        assert_eq!(segments.len(), 2 * spans.len() + 1);
    }
}

#[test]
fn search_line_reports_only_matching_lines() {
    let pattern = CompiledPattern::compile("hello", PatternKind::Regex, false).unwrap();
    assert_eq!(search_line(&pattern, "say hello"), Some(vec![MatchSpan { start: 4, end: 9 }]));
    assert_eq!(search_line(&pattern, "nothing"), None);
    // A pattern that matches the empty text still gives a span.
    let empty = CompiledPattern::compile("x*", PatternKind::Regex, false).unwrap();
    assert_eq!(search_line(&empty, ""), Some(vec![MatchSpan { start: 0, end: 0 }]));
}

#[test]
fn search_content_numbers_lines_from_one() {
    let pattern = CompiledPattern::compile("hello", PatternKind::Regex, false).unwrap();
    let findings = search_content(&pattern, b"hello world\nnothing\nwell, hello rust, hello");
    assert_eq!(findings.len(), 2);
    match &findings[0] {
        LineFinding::Match { line_number, line, spans } => {
            assert_eq!(*line_number, 1);
            assert_eq!(*line, LineRange { start: 0, end: 11 });
            assert_eq!(*spans, vec![MatchSpan { start: 0, end: 5 }]);
        }
        other => panic!("unexpected: {:?}", other),
    }
    match &findings[1] {
        LineFinding::Match { line_number, line, spans } => {
            assert_eq!(*line_number, 3);
            assert_eq!(*line, LineRange { start: 20, end: 43 });
            assert_eq!(*spans, vec![MatchSpan { start: 6, end: 11 }, MatchSpan { start: 18, end: 23 }]);
        }
        other => panic!("unexpected: {:?}", other),
    }
}

#[test]
fn undecodable_line_is_reported_and_scan_goes_on() {
    let pattern = CompiledPattern::compile("hello", PatternKind::Regex, false).unwrap();
    let findings = search_content(&pattern, b"hello\n\xff\xff hello\nhello again\n");
    assert_eq!(findings.len(), 3);
    assert!(matches!(findings[0], LineFinding::Match { line_number: 1, .. }));
    assert!(matches!(
        findings[1],
        LineFinding::DecodeError { line_number: 2, line: LineRange { start: 6, end: 14 } }
    ));
    assert!(matches!(findings[2], LineFinding::Match { line_number: 3, .. }));
}

#[test]
fn search_plan_splits_path_and_compiles_both_patterns() {
    let mut args = search_args("/var/logs/trc*", "err(or)?");
    args.case_insensitive = true;
    args.hidden = true;
    let plan = plan_search(&args).unwrap();
    assert_eq!(plan.root, "/var/logs");
    assert_eq!(plan.file_pattern.source(), "^trc.*$");
    assert!(!plan.file_pattern.case_insensitive());
    assert_eq!(plan.content_pattern.source(), "err(or)?");
    assert!(plan.content_pattern.case_insensitive());
    assert!(plan.policy.include_hidden);
    assert_eq!(plan.policy.max_depth, None);
    assert!(!plan.policy.respect_ignore_files);
}

#[test]
fn search_setup_fails_before_any_work() {
    assert!(matches!(
        plan_search(&search_args("no-slash", "x")),
        Err(PatternError::InvalidPathPattern)
    ));
    assert!(matches!(
        plan_search(&search_args("dir/*", "(")),
        Err(PatternError::InvalidPattern { pattern, .. }) if pattern == "("
    ));
    // The path is looked at first.
    assert!(matches!(plan_search(&search_args("no-slash", "(")), Err(PatternError::InvalidPathPattern)));
    let corpus = vec![file("dir/a.txt", b"x")];
    assert!(matches!(
        run_search(&search_args("d/*", "("), &corpus),
        Err(PatternError::InvalidPattern { pattern, .. }) if pattern == "("
    ));
}

#[test]
fn search_skips_hidden_files_unless_asked() {
    let corpus = vec![file("root/.env", b"SECRET=1"), file("root/a.txt", b"SECRET=2")];
    let mut args = search_args("root/*", "SECRET");
    let reports = run_search(&args, &corpus).unwrap();
    assert_eq!(scanned_paths(&reports), vec!["root/a.txt"]);
    args.hidden = true;
    let reports = run_search(&args, &corpus).unwrap();
    assert_eq!(scanned_paths(&reports), vec!["root/.env", "root/a.txt"]);
}

#[test]
fn search_selects_files_by_name() {
    let mut dir = file("root/logs", b"");
    dir.entry.is_dir = true;
    let mut link = file("root/trc-link", b"");
    link.entry.is_symlink = true;
    let corpus = vec![
        dir,
        link,
        file("root/trc1.log", b"one error\nfine"),
        file("root/xtrc1.log", b"error"),
        file("root/trc", b"nothing here"),
    ];
    let reports = run_search(&search_args("root/trc*", "error"), &corpus).unwrap();
    assert_eq!(scanned_paths(&reports), vec!["root/trc1.log", "root/trc"]);
    match &reports[0] {
        FileReport::Scanned { findings, .. } => assert_eq!(findings.len(), 1),
        other => panic!("unexpected: {:?}", other),
    }
    match &reports[1] {
        FileReport::Scanned { findings, .. } => assert!(findings.is_empty()),
        other => panic!("unexpected: {:?}", other),
    }
}

#[test]
fn unreadable_file_does_not_stop_the_search() {
    let mut locked = file("root/a.txt", b"");
    locked.content = Err(ReadFailure::PermissionDenied);
    let corpus = vec![locked, file("root/b.txt", b"needle")];
    let reports = run_search(&search_args("root/*", "needle"), &corpus).unwrap();
    assert_eq!(reports.len(), 2);
    assert!(matches!(
        &reports[0],
        FileReport::Failed { path, failure: ReadFailure::PermissionDenied } if path == "root/a.txt"
    ));
    assert!(matches!(&reports[1], FileReport::Scanned { findings, .. } if findings.len() == 1));
}
