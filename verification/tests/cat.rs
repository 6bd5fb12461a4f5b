use textutils::cat::{get_args, Arg, UsageError};

fn args(v: &[&str]) -> Vec<String> {
    v.iter().map(|s| s.to_string()).collect()
}

#[test]
fn cat_defaults_to_stdin() {
    let a = get_args(&args(&[])).expect("fine");
    assert_eq!(a.files, vec!["-".to_string()]);
    assert!(!a.number && !a.number_nonblank);
}

#[test]
fn cat_number_conflict() {
    let r = get_args(&args(&["-n", "-b"]));
    assert!(matches!(r, Err(UsageError::NumberConflict)));
}

#[test]
fn cat_unknown_flag() {
    let r = get_args(&args(&["--whatever"]));
    assert!(matches!(r, Err(UsageError::Unrecognized(_))));
}

#[test]
fn cat_long_flags() {
    let a = get_args(&args(&["--number", "f"])).expect("fine");
    assert!(a.number && !a.number_nonblank);
    let a = get_args(&args(&["--number-nonblank", "f"])).expect("fine");
    assert!(!a.number && a.number_nonblank);
}

#[test]
fn numbering_every_line() {
    let a = Arg { files: args(&["-"]), number: true, number_nonblank: false };
    let out = a.render_lines(&args(&["alpha", "", "beta"]));
    assert_eq!(
        out,
        vec![
            "     1\talpha".to_string(),
            "     2\t".to_string(),
            "     3\tbeta".to_string(),
        ]
    );
}

#[test]
fn numbering_nonblank_lines_only() {
    let a = Arg { files: args(&["-"]), number: false, number_nonblank: true };
    let out = a.render_lines(&args(&["alpha", "", "beta"]));
    assert_eq!(
        out,
        vec!["     1\talpha".to_string(), "".to_string(), "     2\tbeta".to_string()]
    );
}

#[test]
fn no_numbering_keeps_lines() {
    let a = Arg { files: args(&["-"]), number: false, number_nonblank: false };
    let out = a.render_lines(&args(&["alpha", "beta"]));
    assert_eq!(out, vec!["alpha".to_string(), "beta".to_string()]);
}
