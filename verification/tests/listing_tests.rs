use file_utility::listing::{listing_header, listing_rule, print_entry};
use file_utility::text::{chars_of, copy_str, pad_right, rfind_char};

#[test]
fn header_and_rule_have_the_columns() {
    assert_eq!(listing_header(), format!("{:<10} {:<20} {:<8} {}", "Mode", "LastWriteTime", "Length", "Name"));
    assert_eq!(listing_rule(), format!("{:-<10} {:-<20} {:-<8} {:-<1}", "", "", "", ""));
}

#[test]
fn rows_show_mode_time_length_and_name() {
    assert_eq!(
        print_entry(false, true, 1234, "3/9/2024 4:05 PM", "notes.txt"),
        format!("{:<10} {:<20} {:<8} {}", "-a----", "3/9/2024 4:05 PM", "1234", "notes.txt")
    );
    assert_eq!(
        print_entry(true, false, 4096, "Unknown", "src"),
        format!("{:<10} {:<20} {:<8} {}", "d-----", "Unknown", "", "src")
    );
    // Neither file nor directory: no length, and not marked as a directory.
    assert_eq!(
        print_entry(false, false, 7, "", "socket"),
        format!("{:<10} {:<20} {:<8} {}", "-a----", "", "", "socket")
    );
    // A long cell pushes the rest to the right.
    assert_eq!(
        print_entry(false, true, 123456789012, "a time that is longer than its column", "n"),
        "-a----     a time that is longer than its column 123456789012 n"
    );
}

#[test]
fn padding_counts_characters() {
    assert_eq!(pad_right("ab", 5, ' '), "ab   ");
    assert_eq!(pad_right("abcde", 5, ' '), "abcde");
    assert_eq!(pad_right("abcdef", 5, ' '), "abcdef");
    assert_eq!(pad_right("", 3, '-'), "---");
    assert_eq!(pad_right("", 0, '-'), "");
    assert_eq!(pad_right("héé", 5, '.'), "héé..");
    assert_eq!(pad_right("héé", 5, '.'), format!("{:.<5}", "héé"));
}

#[test]
fn text_helpers_keep_the_characters() {
    assert_eq!(chars_of("héllo"), vec!['h', 'é', 'l', 'l', 'o']);
    assert_eq!(chars_of(""), Vec::<char>::new());
    assert_eq!(copy_str("héllo"), "héllo");
    let chars = chars_of("a/b/c");
    assert_eq!(rfind_char(&chars, '/'), Some(3));
    assert_eq!(rfind_char(&chars, 'a'), Some(0));
    assert_eq!(rfind_char(&chars, 'x'), None);
}
