use textutils::head::{get_args, head_lines, header_line, BadFileError, UsageError};

fn args(v: &[&str]) -> Vec<String> {
    v.iter().map(|s| s.to_string()).collect()
}

#[test]
fn head_defaults() {
    let c = get_args(&args(&[])).expect("fine");
    assert_eq!(c.files, vec!["-".to_string()]);
    assert_eq!(c.lines, 10);
    assert_eq!(c.bytes, None);
}

#[test]
fn head_line_count() {
    let c = get_args(&args(&["-n", "5", "f.txt"])).expect("fine");
    assert_eq!(c.lines, 5);
    assert_eq!(c.files, vec!["f.txt".to_string()]);
}

#[test]
fn head_byte_count() {
    let c = get_args(&args(&["--bytes", "3", "f.txt"])).expect("fine");
    assert_eq!(c.bytes, Some(3));
    assert_eq!(c.lines, 10);
}

#[test]
fn head_zero_count_rejected() {
    let r = get_args(&args(&["-n", "0"]));
    assert!(matches!(r, Err(UsageError::InvalidValue(_))));
}

#[test]
fn head_garbage_count_rejected() {
    let r = get_args(&args(&["-c", "foo"]));
    match r {
        Err(UsageError::InvalidValue(t)) => assert_eq!(t, "foo"),
        _ => panic!("expected the count to be rejected"),
    }
}

#[test]
fn head_missing_count_rejected() {
    let r = get_args(&args(&["-n"]));
    assert!(matches!(r, Err(UsageError::MissingValue)));
}

#[test]
fn head_lines_bytes_conflict() {
    let r = get_args(&args(&["-n", "2", "-c", "3"]));
    assert!(matches!(r, Err(UsageError::LinesBytesConflict)));
}

#[test]
fn head_unknown_flag() {
    let r = get_args(&args(&["--frob"]));
    assert!(matches!(r, Err(UsageError::Unrecognized(_))));
}

#[test]
fn takes_leading_lines() {
    let all = args(&["a\n", "b\n", "c\n"]);
    assert_eq!(head_lines(&all, 2), args(&["a\n", "b\n"]));
    assert_eq!(head_lines(&all, 3), all);
    assert_eq!(head_lines(&all, 10), all);
    assert_eq!(head_lines(&all, 0), Vec::<String>::new());
}

#[test]
fn banner() {
    assert_eq!(header_line("f.txt"), "==> f.txt <==");
}

#[test]
fn bad_file_message() {
    let e = BadFileError::Open { filename: "nope".to_string(), from: "gone".to_string() };
    assert_eq!(e.message(), "nope: gone");
}
