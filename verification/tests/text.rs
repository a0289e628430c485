use synapse_panel::text::{chars_of, contains, next_boundary, prev_boundary, str_byte_len};

#[test]
fn contains_finds_runs_of_characters() {
    assert!(contains("GET x returned 401", "401"));
    assert!(contains("401", "401"));
    assert!(contains("a401", "401"));
    assert!(!contains("40", "401"));
    assert!(!contains("4 0 1", "401"));
    assert!(!contains("", "401"));
    assert!(contains("", ""));
    assert!(contains("abc", ""));
    assert!(contains("caf\u{e9} host", "host"));
    assert!(contains("caf\u{e9}", "f\u{e9}"));
    assert!(!contains("cafe", "f\u{e9}"));
    assert!(!contains("Host", "host"));
}

#[test]
fn chars_of_lists_the_characters() {
    assert_eq!(chars_of("a\u{e9}\u{1f600}"), vec!['a', '\u{e9}', '\u{1f600}']);
    assert_eq!(chars_of(""), Vec::<char>::new());
}

#[test]
fn boundaries_step_over_whole_characters() {
    let s = "a\u{e9}\u{6f22}\u{1f600}";
    assert_eq!(str_byte_len(s), 10);
    assert_eq!(next_boundary(s, 0), 1);
    assert_eq!(next_boundary(s, 1), 3);
    assert_eq!(next_boundary(s, 3), 6);
    assert_eq!(next_boundary(s, 6), 10);
    assert_eq!(prev_boundary(s, 10), 6);
    assert_eq!(prev_boundary(s, 6), 3);
    assert_eq!(prev_boundary(s, 3), 1);
    assert_eq!(prev_boundary(s, 1), 0);
}
