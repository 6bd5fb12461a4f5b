//! The head tool: its argument grammar — a line or byte count, each wanting a
//! positive value — and the selection of the leading lines of a source.
use vstd::prelude::*;
use crate::numerals::{all_digits, digits_val, parse_u32};
use crate::text::str_eq;

verus! {

/// The tool's arguments: the sources, how many lines to print, or instead
/// how many bytes.
pub struct Config {
    pub files: Vec<String>,
    pub lines: u32,
    pub bytes: Option<u32>,
}

/// A source that could not be opened: its name and the underlying cause.
#[derive(Debug)]
pub enum BadFileError {
    Open { filename: String, from: String },
}

/// How a failed open is reported: the source's name, then the cause.
pub open spec fn open_error_line(e: BadFileError) -> Seq<char> {
    match e {
        BadFileError::Open { filename, from } => filename@ + ": "@ + from@,
    }
}

impl BadFileError {
    /// Renders the error for the error stream.
    pub fn message(&self) -> (s: String)
        ensures
            s@ == open_error_line(*self),
    {
        match self {
            BadFileError::Open { filename, from } => {
                let mut s = filename.clone();
                s.append(": ");
                s.append(from.as_str());
                s
            },
        }
    }
}

/// A rejected command line: an unknown argument, a count that is not a
/// positive number, a count flag with no value after it, or the line and
/// byte counts together.
#[derive(Debug)]
pub enum UsageError {
    Unrecognized(String),
    InvalidValue(String),
    MissingValue,
    LinesBytesConflict,
}

impl UsageError {
    /// Renders the rejection for the error stream.
    pub fn message(&self) -> (s: String)
        ensures
            (*self is Unrecognized ==> s@ == "unexpected argument: "@ + self->Unrecognized_0@),
            (*self is InvalidValue ==> s@ == "count must be a positive number, got: "@
                + self->InvalidValue_0@),
            (*self is MissingValue ==> s@ == "a count flag wants a value after it"@),
            (*self is LinesBytesConflict ==> s@
                == "the lines and bytes flags cannot be used together"@),
    {
        match self {
            UsageError::Unrecognized(t) => {
                let mut s = String::from_str("unexpected argument: ");
                s.append(t.as_str());
                s
            },
            UsageError::InvalidValue(t) => {
                let mut s = String::from_str("count must be a positive number, got: ");
                s.append(t.as_str());
                s
            },
            UsageError::MissingValue => String::from_str("a count flag wants a value after it"),
            UsageError::LinesBytesConflict => {
                String::from_str("the lines and bytes flags cannot be used together")
            },
        }
    }
}

/// A token that can serve as a count: a number of decimal digits whose value
/// is at least one and fits in 32 bits.
pub open spec fn valid_count(t: Seq<char>) -> bool {
    t.len() > 0 && all_digits(t) && 1 <= digits_val(t) <= u32::MAX
}

/// What a prefix of the command line has established.
pub struct HeadState {
    pub files: Seq<Seq<char>>,
    pub lines: nat,
    pub lines_given: bool,
    pub bytes: Option<nat>,
    pub escaped: bool,
    pub pending_lines: bool,
    pub pending_bytes: bool,
    pub bad: Option<Seq<char>>,
    pub bad_value: Option<Seq<char>>,
}

/// One token's effect on the parse.
pub open spec fn head_step(st: HeadState, t: Seq<char>) -> HeadState {
    if st.bad is Some || st.bad_value is Some {
        st
    } else if st.pending_lines {
        if valid_count(t) {
            HeadState { lines: digits_val(t), pending_lines: false, ..st }
        } else {
            HeadState { bad_value: Some(t), ..st }
        }
    } else if st.pending_bytes {
        if valid_count(t) {
            HeadState { bytes: Some(digits_val(t)), pending_bytes: false, ..st }
        } else {
            HeadState { bad_value: Some(t), ..st }
        }
    } else if st.escaped {
        HeadState { files: st.files.push(t), ..st }
    } else if t == "-n"@ || t == "--lines"@ {
        HeadState { pending_lines: true, lines_given: true, ..st }
    } else if t == "-c"@ || t == "--bytes"@ {
        HeadState { pending_bytes: true, ..st }
    } else if t == "--"@ {
        HeadState { escaped: true, ..st }
    } else if t.len() >= 2 && t[0] == '-' {
        HeadState { bad: Some(t), ..st }
    } else {
        HeadState { files: st.files.push(t), ..st }
    }
}

/// The parse of the first `n` tokens; the line count starts at its default
/// of ten.
pub open spec fn head_upto(args: Seq<Seq<char>>, n: int) -> HeadState
    decreases n,
{
    if n <= 0 {
        HeadState {
            files: Seq::empty(),
            lines: 10,
            lines_given: false,
            bytes: None,
            escaped: false,
            pending_lines: false,
            pending_bytes: false,
            bad: None,
            bad_value: None,
        }
    } else {
        head_step(head_upto(args, n - 1), args[n - 1])
    }
}

/// The parse of the whole command line.
pub open spec fn head_parsed(args: Seq<Seq<char>>) -> HeadState {
    head_upto(args, args.len() as int)
}

proof fn lemma_head_bad_stable(args: Seq<Seq<char>>, n: int, m: int)
    requires
        0 <= n <= m,
        head_upto(args, n).bad is Some || head_upto(args, n).bad_value is Some,
    ensures
        head_upto(args, m).bad == head_upto(args, n).bad,
        head_upto(args, m).bad_value == head_upto(args, n).bad_value,
    decreases m - n,
{
    if n < m {
        lemma_head_bad_stable(args, n, m - 1);
    }
}

proof fn lemma_head_lines_bounded(args: Seq<Seq<char>>, n: int)
    requires
        n >= 0,
    ensures
        head_upto(args, n).lines <= u32::MAX,
    decreases n,
{
    if n > 0 {
        lemma_head_lines_bounded(args, n - 1);
    }
}

/// Reads the command line. Rejects a token the grammar does not know, a count
/// value that is not a positive 32-bit number, a count flag with no value,
/// and the line and byte counts together. With no file token the single
/// token `-`, standard input, is the source.
pub fn get_args(args: &Vec<String>) -> (r: Result<Config, UsageError>)
    ensures
        ({
            let st = head_parsed(args.deep_view());
            &&& (r is Err <==> st.bad is Some || st.bad_value is Some || st.pending_lines
                || st.pending_bytes || (st.lines_given && st.bytes is Some))
            &&& (st.bad is Some ==> r is Err && r->Err_0 is Unrecognized
                && r->Err_0->Unrecognized_0@ == st.bad->Some_0)
            &&& (st.bad is None && st.bad_value is Some ==> r is Err && r->Err_0 is InvalidValue
                && r->Err_0->InvalidValue_0@ == st.bad_value->Some_0)
            &&& (st.bad is None && st.bad_value is None && (st.pending_lines || st.pending_bytes)
                ==> r == Result::<Config, UsageError>::Err(UsageError::MissingValue))
            &&& (st.bad is None && st.bad_value is None && !st.pending_lines && !st.pending_bytes
                && st.lines_given && st.bytes is Some ==> r == Result::<Config, UsageError>::Err(
                UsageError::LinesBytesConflict,
            ))
            &&& (r is Ok ==> ({
                let c = r->Ok_0;
                &&& c.files.deep_view() == (if st.files.len() == 0 {
                    seq!["-"@]
                } else {
                    st.files
                })
                &&& c.lines == st.lines
                &&& (c.bytes is Some <==> st.bytes is Some)
                &&& (c.bytes is Some ==> c.bytes->Some_0 == st.bytes->Some_0)
            }))
        }),
{
    let ghost dv = args.deep_view();
    let mut files: Vec<String> = Vec::new();
    let mut lines: u32 = 10;
    let mut lines_given = false;
    let mut bytes: Option<u32> = None;
    let mut escaped = false;
    let mut pending_lines = false;
    let mut pending_bytes = false;
    let mut i: usize = 0;
    while i < args.len()
        invariant
            dv == args.deep_view(),
            dv.len() == args@.len(),
            i <= args@.len(),
            head_upto(dv, i as int).bad is None,
            head_upto(dv, i as int).bad_value is None,
            head_upto(dv, i as int).files == files.deep_view(),
            head_upto(dv, i as int).lines == lines,
            head_upto(dv, i as int).lines_given == lines_given,
            (head_upto(dv, i as int).bytes is Some <==> bytes is Some),
            (bytes is Some ==> head_upto(dv, i as int).bytes->Some_0 == bytes->Some_0),
            head_upto(dv, i as int).escaped == escaped,
            head_upto(dv, i as int).pending_lines == pending_lines,
            head_upto(dv, i as int).pending_bytes == pending_bytes,
        decreases args@.len() - i,
    {
        let t = &args[i];
        let ghost old_files = files.deep_view();
        proof {
            assert(t@ == dv[i as int]);
        }
        if pending_lines || pending_bytes {
            let parsed_value = parse_u32(t.as_str());
            match parsed_value {
                Some(v) if v >= 1 => {
                    if pending_lines {
                        lines = v;
                        pending_lines = false;
                    } else {
                        bytes = Some(v);
                        pending_bytes = false;
                    }
                },
                _ => {
                    proof {
                        lemma_head_bad_stable(dv, i as int + 1, dv.len() as int);
                    }
                    return Err(UsageError::InvalidValue(t.clone()));
                },
            }
        } else if escaped {
            files.push(t.clone());
            proof {
                assert(files.deep_view() =~= old_files.push(t@));
            }
        } else if str_eq(t.as_str(), "-n") || str_eq(t.as_str(), "--lines") {
            pending_lines = true;
            lines_given = true;
        } else if str_eq(t.as_str(), "-c") || str_eq(t.as_str(), "--bytes") {
            pending_bytes = true;
        } else if str_eq(t.as_str(), "--") {
            escaped = true;
        } else {
            let n = t.unicode_len();
            if n >= 2 && t.as_str().get_char(0) == '-' {
                proof {
                    lemma_head_bad_stable(dv, i as int + 1, dv.len() as int);
                }
                return Err(UsageError::Unrecognized(t.clone()));
            } else {
                files.push(t.clone());
                proof {
                    assert(files.deep_view() =~= old_files.push(t@));
                }
            }
        }
        i = i + 1;
    }
    if pending_lines || pending_bytes {
        return Err(UsageError::MissingValue);
    }
    if lines_given && bytes.is_some() {
        return Err(UsageError::LinesBytesConflict);
    }
    if files.len() == 0 {
        files.push(String::from_str("-"));
        proof {
            assert(files.deep_view() =~= seq!["-"@]);
        }
    }
    Ok(Config { files, lines, bytes })
}

/// The leading lines of a source: all of them when there are no more than
/// `n`, the first `n` otherwise.
pub open spec fn taken(lines: Seq<Seq<char>>, n: nat) -> Seq<Seq<char>> {
    if lines.len() <= n {
        lines
    } else {
        lines.take(n as int)
    }
}

/// Selects the leading `n` lines of a source.
pub fn head_lines(lines: &Vec<String>, n: u32) -> (out: Vec<String>)
    ensures
        out.deep_view() == taken(lines.deep_view(), n as nat),
{
    let ghost dv = lines.deep_view();
    let mut out: Vec<String> = Vec::new();
    let mut i: usize = 0;
    proof {
        assert(out.deep_view() =~= dv.take(0));
    }
    while i < lines.len() && (i as u64) < (n as u64)
        invariant
            dv == lines.deep_view(),
            dv.len() == lines@.len(),
            i <= lines@.len(),
            i <= n,
            out.deep_view() == dv.take(i as int),
        decreases lines@.len() - i,
    {
        let ghost old_out = out.deep_view();
        out.push(lines[i].clone());
        proof {
            assert(lines@[i as int]@ == dv[i as int]);
            assert(out.deep_view() =~= old_out.push(dv[i as int]));
            assert(dv.take(i as int).push(dv[i as int]) =~= dv.take(i as int + 1));
        }
        i = i + 1;
    }
    proof {
        if i == lines@.len() {
            assert(dv.take(i as int) =~= dv);
        }
    }
    out
}

/// The banner printed above a source's output when several were asked for.
pub fn header_line(name: &str) -> (s: String)
    ensures
        s@ == "==> "@ + name@ + " <=="@,
{
    let mut s = String::from_str("==> ");
    s.append(name);
    s.append(" <==");
    s
}

} // verus!
