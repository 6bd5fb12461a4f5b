use textutils::echo;

fn args(v: &[&str]) -> Vec<String> {
    v.iter().map(|s| s.to_string()).collect()
}

fn output_of(v: &[&str]) -> String {
    let parsed = echo::get_args(&args(v)).expect("arguments should be accepted");
    echo::render(&parsed.text, parsed.omit_newline)
}

#[test]
fn dies_no_args() {
    let r = echo::get_args(&args(&[]));
    assert!(r.is_err());
    assert!(r.err().unwrap().message().contains("Usage"));
}

#[test]
fn runs() {
    assert_eq!(output_of(&["Hello, World!"]), "Hello, World!\n");
}

#[test]
fn hello1() {
    assert_eq!(output_of(&["Hello there"]), "Hello there\n");
}

#[test]
fn hello2() {
    assert_eq!(output_of(&["Hello", "there"]), "Hello there\n");
}

#[test]
fn hello1_no_newline() {
    assert_eq!(output_of(&["-n", "Hello there"]), "Hello there");
}

#[test]
fn hello2_no_newline() {
    assert_eq!(output_of(&["-n", "Hello", "there"]), "Hello there");
}

#[test]
fn rejects_unknown_flag() {
    let r = echo::get_args(&args(&["-x", "hi"]));
    assert!(r.is_err());
}
