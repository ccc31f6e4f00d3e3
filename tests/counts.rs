use wordcount::counting::{is_whitespace, Statistics};
use wordcount::options::{selected_counts, Options};

fn none() -> Options {
    Options { count_bytes: false, count_lines: false, count_words: false, count_chars: false }
}

#[test]
fn line_counts() {
    assert_eq!(Statistics::from_content("").lines, 0);
    assert_eq!(Statistics::from_content("a\n").lines, 1);
    assert_eq!(Statistics::from_content("a").lines, 1);
    assert_eq!(Statistics::from_content("a\nb").lines, 2);
    assert_eq!(Statistics::from_content("a\nb\n").lines, 2);
}

#[test]
fn hello_world_default() {
    let s = Statistics::from_content("hello world\n");
    assert_eq!(selected_counts(&none(), &s), vec![1, 2, 12]);
}

#[test]
fn lines_and_words_flags() {
    let s = Statistics::from_content("foo\nbar\nbaz\n");
    let mut o = none();
    o.count_lines = true;
    o.count_words = true;
    assert!(o.is_any_set());
    assert_eq!(selected_counts(&o, &s), vec![3, 3]);
}

#[test]
fn all_flags_in_fixed_order() {
    let s = Statistics::from_content("h\u{e9}\n");
    let o = Options { count_bytes: true, count_lines: true, count_words: true, count_chars: true };
    assert_eq!(selected_counts(&o, &s), vec![1, 1, 4, 3]);
}

#[test]
fn multibyte_bytes_exceed_chars() {
    let s = Statistics::from_content("caf\u{e9} \u{1f600}");
    assert_eq!(s.chars, 6);
    assert_eq!(s.bytes, 10);
    let a = Statistics::from_content("plain ascii");
    assert_eq!(a.chars, a.bytes);
}

#[test]
fn whitespace_run_length_does_not_change_words() {
    let a = Statistics::from_content("one two\tthree");
    let b = Statistics::from_content("  one \u{3000}\u{a0} two\t\t\n three \n");
    assert_eq!(a.words, 3);
    assert_eq!(b.words, 3);
    assert_eq!(Statistics::from_content("").words, 0);
    assert_eq!(Statistics::from_content(" \t\n").words, 0);
}

#[test]
fn unicode_whitespace_classes() {
    assert!(is_whitespace(' '));
    assert!(is_whitespace('\u{2028}'));
    assert!(!is_whitespace('x'));
    assert!(!is_whitespace('\u{200b}'));
}

#[test]
fn carriage_return_lines() {
    let s = Statistics::from_content("a\r\nb\r\n");
    assert_eq!(s.lines, 2);
    assert_eq!(s.words, 2);
}
