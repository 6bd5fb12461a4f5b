use textutils::wc::{format_tally, render_report, total_of, FileError, Tally};
use textutils::wc_config::{get_args, Config, UsageError};

fn args(v: &[&str]) -> Vec<String> {
    v.iter().map(|s| s.to_string()).collect()
}

fn lines(v: &[&str]) -> Vec<String> {
    v.iter().map(|s| s.to_string()).collect()
}

fn config(files: &[&str], bytes: bool, chars: bool, lines: bool, words: bool) -> Config {
    Config { files: args(files), bytes, chars, lines, words }
}

fn assert_config_eq(actual: &Config, expected: &Config) {
    assert_eq!(actual.files, expected.files);
    assert_eq!(actual.bytes, expected.bytes);
    assert_eq!(actual.chars, expected.chars);
    assert_eq!(actual.lines, expected.lines);
    assert_eq!(actual.words, expected.words);
}

#[test]
fn test_normalize_default() {
    let actual = Config::normalize(config(&["-"], false, false, false, false));
    assert_config_eq(&actual, &config(&["-"], true, false, true, true));
}

#[test]
fn test_normalize_bytes() {
    let actual = Config::normalize(config(&["-"], true, false, false, false));
    assert_config_eq(&actual, &config(&["-"], true, false, false, false));
}

#[test]
fn test_normalize_chars() {
    let actual = Config::normalize(config(&["-"], false, true, false, false));
    assert_config_eq(&actual, &config(&["-"], false, true, false, false));
}

#[test]
fn test_normalize_lines() {
    let actual = Config::normalize(config(&["-"], false, false, true, false));
    assert_config_eq(&actual, &config(&["-"], false, false, true, false));
}

#[test]
fn test_normalize_words() {
    let actual = Config::normalize(config(&["-"], false, false, false, true));
    assert_config_eq(&actual, &config(&["-"], false, false, false, true));
}

#[test]
fn test_normalize_bytes_lines() {
    let actual = Config::normalize(config(&["-"], true, false, true, false));
    assert_config_eq(&actual, &config(&["-"], true, false, true, false));
}

#[test]
fn tally_of_two_lines() {
    let t = Tally::of_lines("in.txt".to_string(), &lines(&["foo\n", "bar baz\n"]));
    assert_eq!(t.lines, 2);
    assert_eq!(t.words, 3);
    assert_eq!(t.bytes, 12);
    assert_eq!(t.chars, 12);
}

#[test]
fn tally_counts_final_unterminated_line() {
    let t = Tally::of_lines("x".to_string(), &lines(&["one\n", "two"]));
    assert_eq!(t.lines, 2);
    assert_eq!(t.bytes, 7);
    assert_eq!(t.words, 2);
}

#[test]
fn tally_multibyte_characters() {
    // "héllo\n" is six characters but seven bytes in UTF-8.
    let t = Tally::of_lines("x".to_string(), &lines(&["h\u{e9}llo\n"]));
    assert_eq!(t.chars, 6);
    assert_eq!(t.bytes, 7);
    assert_eq!(t.lines, 1);
    assert_eq!(t.words, 1);
}

#[test]
fn tally_empty_source() {
    let t = Tally::of_lines("x".to_string(), &lines(&[]));
    assert_eq!(t.lines, 0);
    assert_eq!(t.bytes, 0);
    assert_eq!(t.chars, 0);
    assert_eq!(t.words, 0);
}

#[test]
fn formats_default_flags_exactly() {
    let c = Config::normalize(config(&["in.txt"], false, false, false, false));
    let t = Tally::of_lines("in.txt".to_string(), &lines(&["foo\n", "bar baz\n"]));
    assert_eq!(format_tally(&c, &t), "       2       3      12 in.txt");
}

#[test]
fn stdin_line_shows_no_name() {
    let c = Config::normalize(config(&["-"], false, false, false, false));
    let t = Tally::of_lines("-".to_string(), &lines(&["foo\n", "bar baz\n"]));
    assert_eq!(format_tally(&c, &t), "       2       3      12");
}

#[test]
fn formats_single_metric() {
    let c = config(&["-"], false, false, true, false);
    let t = Tally::of_lines("notes".to_string(), &lines(&["a\n", "b\n", "c\n"]));
    assert_eq!(format_tally(&c, &t), "       3 notes");
}

#[test]
fn formats_wide_value_unclipped() {
    let c = config(&["-"], false, false, true, false);
    let t = Tally { name: "n".to_string(), bytes: 0, chars: 0, lines: 1234567890, words: 0 };
    assert_eq!(format_tally(&c, &t), "1234567890 n");
}

#[test]
fn total_sums_only_successful() {
    let ok = Tally::of_lines("a.txt".to_string(), &lines(&["foo\n", "bar baz\n"]));
    let results: Vec<Result<Tally, FileError>> = vec![
        Err(FileError::Open { name: "blargh".to_string(), cause: "no such file".to_string() }),
        Ok(ok),
    ];
    let t = total_of(&results);
    assert_eq!(t.name, "total");
    assert_eq!(t.lines, 2);
    assert_eq!(t.words, 3);
    assert_eq!(t.bytes, 12);
    assert_eq!(t.chars, 12);
}

#[test]
fn report_with_one_missing_source() {
    let c = Config::normalize(config(&["blargh", "a.txt"], false, false, false, false));
    let ok = Tally::of_lines("a.txt".to_string(), &lines(&["foo\n", "bar baz\n"]));
    let results: Vec<Result<Tally, FileError>> = vec![
        Err(FileError::Open { name: "blargh".to_string(), cause: "no such file".to_string() }),
        Ok(ok),
    ];
    let (out, errs) = render_report(&c, &results);
    // The present source still prints, and the total line appears because two
    // sources were requested, summing only the successful one.
    assert_eq!(
        out,
        vec![
            "       2       3      12 a.txt".to_string(),
            "       2       3      12 total".to_string(),
        ]
    );
    assert_eq!(errs, vec!["blargh: no such file".to_string()]);
}

#[test]
fn report_single_source_has_no_total() {
    let c = Config::normalize(config(&["a.txt"], false, false, false, false));
    let ok = Tally::of_lines("a.txt".to_string(), &lines(&["foo\n"]));
    let results: Vec<Result<Tally, FileError>> = vec![Ok(ok)];
    let (out, errs) = render_report(&c, &results);
    assert_eq!(out, vec!["       1       1       4 a.txt".to_string()]);
    assert!(errs.is_empty());
}

#[test]
fn bytes_and_chars_conflict() {
    let r = get_args(&args(&["-c", "-m"]));
    assert!(matches!(r, Err(UsageError::MetricConflict)));
}

#[test]
fn unknown_flag_is_rejected() {
    let r = get_args(&args(&["--frobnicate"]));
    match r {
        Err(UsageError::Unrecognized(t)) => assert_eq!(t, "--frobnicate"),
        _ => panic!("expected the unknown flag to be rejected"),
    }
}

#[test]
fn no_args_defaults_to_stdin_and_default_metrics() {
    let c = get_args(&args(&[])).expect("empty command line is fine");
    assert_eq!(c.files, vec!["-".to_string()]);
    assert!(c.bytes && c.lines && c.words && !c.chars);
}

#[test]
fn explicit_flag_suppresses_default() {
    let c = get_args(&args(&["-l", "f.txt"])).expect("fine");
    assert_eq!(c.files, vec!["f.txt".to_string()]);
    assert!(c.lines && !c.words && !c.bytes && !c.chars);
}

#[test]
fn escape_makes_flags_files() {
    let c = get_args(&args(&["--", "-c"])).expect("fine");
    assert_eq!(c.files, vec!["-c".to_string()]);
}

#[test]
fn chars_flag_alone_is_kept() {
    let c = get_args(&args(&["-m"])).expect("fine");
    assert!(c.chars && !c.bytes && !c.lines && !c.words);
}

#[test]
fn file_error_message() {
    let e = FileError::Open { name: "f.txt".to_string(), cause: "denied".to_string() };
    assert_eq!(e.message(), "f.txt: denied");
    let e = FileError::Read { name: "g".to_string(), cause: "broken".to_string() };
    assert_eq!(e.message(), "g: broken");
}
