use file_utility::pattern::{CompiledPattern, PatternError, PatternKind};
use file_utility::span::{keep_ordered, MatchSpan};
use file_utility::wildcard::{extract_path_and_pattern, wildcard_to_regex};

fn spans(pairs: &[(usize, usize)]) -> Vec<MatchSpan> {
    pairs.iter().map(|&(start, end)| MatchSpan { start, end }).collect()
}

#[test]
fn wildcard_translates_each_character() {
    assert_eq!(wildcard_to_regex("trc*"), "^trc.*$");
    assert_eq!(wildcard_to_regex("a?c"), "^a.c$");
    assert_eq!(wildcard_to_regex("my-file.txt"), "^my-file\\.txt$");
    assert_eq!(wildcard_to_regex(""), "^$");
    assert_eq!(wildcard_to_regex("a+b(c)[d]{e}|f^g$h#i&j~k\\l"), "^a\\+b\\(c\\)\\[d\\]\\{e\\}\\|f\\^g\\$h\\#i\\&j\\~k\\\\l$");
    assert_eq!(wildcard_to_regex("\\*"), "^\\\\.*$");
    assert_eq!(wildcard_to_regex("naïve*.log"), "^naïve.*\\.log$");
}

#[test]
fn wildcard_is_anchored_not_substring() {
    let pattern = CompiledPattern::compile("trc*", PatternKind::FileName, false).unwrap();
    assert_eq!(pattern.source(), "^trc.*$");
    assert!(pattern.is_match("trc1.log"));
    assert!(pattern.is_match("trc"));
    assert!(!pattern.is_match("xtrc1"));
}

#[test]
fn wildcard_question_mark_is_one_character() {
    let pattern = CompiledPattern::compile("a?.txt", PatternKind::FileName, false).unwrap();
    assert!(pattern.is_match("ab.txt"));
    assert!(!pattern.is_match("a.txt"));
    assert!(!pattern.is_match("abc.txt"));
    assert!(!pattern.is_match("abxtxt"));
}

#[test]
fn path_splits_at_last_slash() {
    let (dir, file) = extract_path_and_pattern("/var/logs/trc*").unwrap();
    assert_eq!(dir, "/var/logs");
    assert_eq!(file, "^trc.*$");
    let (dir, file) = extract_path_and_pattern("./*.rs").unwrap();
    assert_eq!(dir, ".");
    assert_eq!(file, "^.*\\.rs$");
    let (dir, file) = extract_path_and_pattern("/x").unwrap();
    assert_eq!(dir, "");
    assert_eq!(file, "^x$");
    let (dir, file) = extract_path_and_pattern("dir/").unwrap();
    assert_eq!(dir, "dir");
    assert_eq!(file, "^$");
}

#[test]
fn path_without_slash_is_refused() {
    assert!(matches!(extract_path_and_pattern("trc*"), Err(PatternError::InvalidPathPattern)));
    assert!(matches!(extract_path_and_pattern(""), Err(PatternError::InvalidPathPattern)));
}

#[test]
fn literal_pattern_is_escaped() {
    let pattern = CompiledPattern::compile("a.b*", PatternKind::Literal, false).unwrap();
    assert_eq!(pattern.source(), "a\\.b\\*");
    assert!(pattern.is_match("xxa.b*yy"));
    assert!(!pattern.is_match("aXbb"));
}

#[test]
fn regex_pattern_is_taken_as_written() {
    let pattern = CompiledPattern::compile("a.b*", PatternKind::Regex, false).unwrap();
    assert_eq!(pattern.source(), "a.b*");
    assert!(pattern.is_match("aXbb"));
    assert!(!pattern.case_insensitive());
}

#[test]
fn unbalanced_group_is_invalid() {
    match CompiledPattern::compile("foo(bar", PatternKind::Regex, false) {
        Err(PatternError::InvalidPattern { pattern, detail }) => {
            assert_eq!(pattern, "foo(bar");
            assert!(!detail.is_empty());
        }
        other => panic!("unexpected: {:?}", other.map(|p| p.source().to_string())),
    }
    // The same text is a fine literal.
    assert!(CompiledPattern::compile("foo(bar", PatternKind::Literal, false).is_ok());
}

#[test]
fn case_folding_is_optional() {
    let exact = CompiledPattern::compile("hello", PatternKind::Regex, false).unwrap();
    let folded = CompiledPattern::compile("hello", PatternKind::Regex, true).unwrap();
    assert!(!exact.is_match("Say HELLO"));
    assert!(folded.is_match("Say HELLO"));
    assert!(folded.case_insensitive());
    assert_eq!(folded.find_spans("Say HELLO"), spans(&[(4, 9)]));
}

#[test]
fn find_spans_reads_left_to_right() {
    let pattern = CompiledPattern::compile("ab", PatternKind::Literal, false).unwrap();
    assert_eq!(pattern.find_spans("abxabab"), spans(&[(0, 2), (3, 5), (5, 7)]));
    assert_eq!(pattern.find_spans("none"), spans(&[]));
    // Overlapping candidates: the first match wins.
    let pattern = CompiledPattern::compile("aa", PatternKind::Literal, false).unwrap();
    assert_eq!(pattern.find_spans("aaa"), spans(&[(0, 2)]));
    assert_eq!(pattern.find_spans("aaaa"), spans(&[(0, 2), (2, 4)]));
}

#[test]
fn find_spans_are_ordered_and_disjoint() {
    let cases = [
        ("a*", "baaac"),
        ("", "héllo"),
        ("l+", "hello world, all well"),
        ("\\b", "two words"),
        ("(?:é|l)", "héllo"),
    ];
    for (source, text) in cases {
        let pattern = CompiledPattern::compile(source, PatternKind::Regex, false).unwrap();
        let found = pattern.find_spans(text);
        assert_eq!(!found.is_empty(), pattern.is_match(text));
        for span in &found {
            assert!(span.start <= span.end && span.end <= text.len());
            assert!(text.is_char_boundary(span.start) && text.is_char_boundary(span.end));
        }
        for pair in found.windows(2) {
            assert!(pair[0].start <= pair[1].start);
            assert!(pair[0].end <= pair[1].start);
        }
    }
}

#[test]
fn find_spans_gives_byte_offsets() {
    let pattern = CompiledPattern::compile("l", PatternKind::Literal, false).unwrap();
    // 'é' takes two bytes.
    assert_eq!(pattern.find_spans("héllo"), spans(&[(3, 4), (4, 5)]));
}

#[test]
fn keep_ordered_drops_what_does_not_fit() {
    let text = "héllo";
    // In order and fitting: kept as they are.
    assert_eq!(keep_ordered(&vec![(0, 1), (3, 4)], text), spans(&[(0, 1), (3, 4)]));
    // Starts before the last kept span ended: dropped.
    assert_eq!(keep_ordered(&vec![(0, 3), (1, 4), (3, 6)], text), spans(&[(0, 3), (3, 6)]));
    // Start after end, or past the end of the text: dropped.
    assert_eq!(keep_ordered(&vec![(4, 3), (5, 7), (6, 6)], text), spans(&[(6, 6)]));
    // Inside the two bytes of 'é': dropped.
    assert_eq!(keep_ordered(&vec![(1, 2), (2, 3), (1, 3)], text), spans(&[(1, 3)]));
    // Empty spans may touch.
    assert_eq!(keep_ordered(&vec![(0, 0), (0, 0), (0, 1)], text), spans(&[(0, 0), (0, 0), (0, 1)]));
    assert_eq!(keep_ordered(&vec![], text), spans(&[]));
}
