use wordcount::args::parse_args;
use wordcount::counting::Statistics;
use wordcount::options::{report_rows, Options};

fn strings(v: &[&str]) -> Vec<String> {
    v.iter().map(|s| s.to_string()).collect()
}

#[test]
fn no_arguments_reads_stdin_with_no_flags() {
    let (o, f) = parse_args(&Vec::new()).unwrap();
    assert!(!o.is_any_set());
    assert_eq!(f, None);
}

#[test]
fn each_flag_sets_its_option() {
    let (o, f) = parse_args(&strings(&["-l", "-w", "file.txt"])).unwrap();
    assert!(o.count_lines && o.count_words && !o.count_bytes && !o.count_chars);
    assert_eq!(f, Some("file.txt".to_string()));
    let (o, _) = parse_args(&strings(&["-c", "-m", "-c"])).unwrap();
    assert!(o.count_bytes && o.count_chars && !o.count_lines && !o.count_words);
}

#[test]
fn last_positional_wins() {
    let (_, f) = parse_args(&strings(&["a.txt", "-l", "b.txt"])).unwrap();
    assert_eq!(f, Some("b.txt".to_string()));
}

#[test]
fn unknown_option_is_reported() {
    assert_eq!(parse_args(&strings(&["-x"])), Err("-x".to_string()));
    assert_eq!(parse_args(&strings(&["-l", "-cl", "-y"])), Err("-cl".to_string()));
    assert_eq!(parse_args(&strings(&["f", "--"])), Err("--".to_string()));
    assert_eq!(parse_args(&strings(&["-"])), Err("-".to_string()));
}

#[test]
fn default_report_is_one_row() {
    let o = Options { count_bytes: false, count_lines: false, count_words: false, count_chars: false };
    let s = Statistics::from_content("hello world\n");
    assert_eq!(report_rows(&o, &s), vec![vec![1, 2, 12]]);
}

#[test]
fn flagged_report_is_one_row_per_count() {
    let (o, _) = parse_args(&strings(&["-w", "-l", "f"])).unwrap();
    let s = Statistics::from_content("foo\nbar\nbaz\n");
    assert_eq!(report_rows(&o, &s), vec![vec![3], vec![3]]);
}
