//! The source-opening boundary: the decision which kind of source a token
//! names, and the error a source that cannot be opened is reported with. The
//! opening itself — standard input or a named file — is the caller's.
use vstd::prelude::*;

verus! {

/// A source that could not be opened: the token that named it and the
/// underlying cause.
#[derive(Debug)]
pub enum FileError {
    NotFound(String, String),
}

/// How a failed open is reported: the source's name, then the cause.
pub open spec fn not_found_line(e: FileError) -> Seq<char> {
    match e {
        FileError::NotFound(name, cause) => name@ + ": "@ + cause@,
    }
}

impl FileError {
    /// Renders the error for the error stream.
    pub fn message(&self) -> (s: String)
        ensures
            s@ == not_found_line(*self),
    {
        match self {
            FileError::NotFound(name, cause) => {
                let mut s = name.clone();
                s.append(": ");
                s.append(cause.as_str());
                s
            },
        }
    }
}

/// The single token `-` names standard input; every other token names a file.
pub fn is_stdin_token(t: &str) -> (r: bool)
    ensures
        r == (t@ == seq!['-']),
{
    let r = t.unicode_len() == 1 && t.get_char(0) == '-';
    proof {
        if r {
            assert(t@ =~= seq!['-']);
        }
    }
    r
}

} // verus!
