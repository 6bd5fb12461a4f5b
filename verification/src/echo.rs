//! The echo tool: joins its text arguments with single spaces and ends the
//! result with a newline unless asked not to.
use vstd::prelude::*;
use crate::text::str_eq;

verus! {

/// The text arguments joined with one space between neighbours.
pub open spec fn joined(parts: Seq<Seq<char>>) -> Seq<char>
    decreases parts.len(),
{
    if parts.len() == 0 {
        Seq::empty()
    } else if parts.len() == 1 {
        parts[0]
    } else {
        joined(parts.drop_last()) + seq![' '] + parts.last()
    }
}

/// The whole output: the joined text, then a newline unless it is omitted.
pub open spec fn echoed(parts: Seq<Seq<char>>, omit_newline: bool) -> Seq<char> {
    joined(parts) + (if omit_newline {
        Seq::<char>::empty()
    } else {
        seq!['\n']
    })
}

proof fn lemma_joined_take_step(parts: Seq<Seq<char>>, i: int)
    requires
        1 <= i < parts.len(),
    ensures
        joined(parts.take(i + 1)) == joined(parts.take(i)) + seq![' '] + parts[i],
{
    assert(parts.take(i + 1).drop_last() =~= parts.take(i));
    assert(parts.take(i + 1).last() == parts[i]);
}

/// Renders the echoed text.
pub fn render(text: &Vec<String>, omit_newline: bool) -> (s: String)
    ensures
        s@ == echoed(text.deep_view(), omit_newline),
{
    let ghost dv = text.deep_view();
    let mut s = String::new();
    let mut i: usize = 0;
    while i < text.len()
        invariant
            dv == text.deep_view(),
            i <= text@.len(),
            dv.len() == text@.len(),
            s@ == joined(dv.take(i as int)),
        decreases text@.len() - i,
    {
        proof {
            assert(text@[i as int]@ == dv[i as int]);
        }
        if i > 0 {
            s.append(" ");
            proof {
                reveal_strlit(" ");
            }
        }
        s.append(text[i].as_str());
        proof {
            if i == 0 {
                assert(dv.take(1).len() == 1);
                assert(s@ =~= joined(dv.take(1)));
            } else {
                lemma_joined_take_step(dv, i as int);
            }
        }
        i = i + 1;
    }
    proof {
        assert(dv.take(text@.len() as int) =~= dv);
    }
    if !omit_newline {
        s.append("\n");
        proof {
            reveal_strlit("\n");
            assert(s@ =~= echoed(dv, omit_newline));
        }
    } else {
        proof {
            assert(s@ =~= echoed(dv, omit_newline));
        }
    }
    s
}

/// The echo tool's arguments: the text to print, and whether the trailing
/// newline is omitted.
pub struct EchoArgs {
    pub text: Vec<String>,
    pub omit_newline: bool,
}

/// A rejected echo command line: an unknown flag, or no text at all.
#[derive(Debug)]
pub enum UsageError {
    Unrecognized(String),
    MissingText,
}

impl UsageError {
    /// Renders the rejection for the error stream, opening with the usage line.
    pub fn message(&self) -> (s: String)
        ensures
            (*self is Unrecognized ==> s@ == "Usage: echo [-n] TEXT...; unexpected argument: "@
                + self->Unrecognized_0@),
            (*self is MissingText ==> s@ == "Usage: echo [-n] TEXT...; some text is required"@),
    {
        match self {
            UsageError::Unrecognized(t) => {
                let mut s = String::from_str("Usage: echo [-n] TEXT...; unexpected argument: ");
                s.append(t.as_str());
                s
            },
            UsageError::MissingText => {
                String::from_str("Usage: echo [-n] TEXT...; some text is required")
            },
        }
    }
}

/// What a prefix of the echo command line has established.
pub struct EchoState {
    pub text: Seq<Seq<char>>,
    pub omit_newline: bool,
    pub bad: Option<Seq<char>>,
}

/// One token's effect: `-n` omits the newline, any other token starting with
/// `-` (other than `-` itself) is rejected, anything else is text.
pub open spec fn echo_step(st: EchoState, t: Seq<char>) -> EchoState {
    if st.bad is Some {
        st
    } else if t == "-n"@ {
        EchoState { omit_newline: true, ..st }
    } else if t.len() >= 2 && t[0] == '-' {
        EchoState { bad: Some(t), ..st }
    } else {
        EchoState { text: st.text.push(t), ..st }
    }
}

/// The parse of the first `n` tokens of the echo command line.
pub open spec fn echo_upto(args: Seq<Seq<char>>, n: int) -> EchoState
    decreases n,
{
    if n <= 0 {
        EchoState { text: Seq::empty(), omit_newline: false, bad: None }
    } else {
        echo_step(echo_upto(args, n - 1), args[n - 1])
    }
}

/// The parse of the whole echo command line.
pub open spec fn echo_parsed(args: Seq<Seq<char>>) -> EchoState {
    echo_upto(args, args.len() as int)
}

proof fn lemma_echo_bad_stable(args: Seq<Seq<char>>, n: int, m: int)
    requires
        0 <= n <= m,
        echo_upto(args, n).bad is Some,
    ensures
        echo_upto(args, m).bad == echo_upto(args, n).bad,
    decreases m - n,
{
    if n < m {
        lemma_echo_bad_stable(args, n, m - 1);
    }
}

/// Reads the echo command line. Rejects an unknown flag, and a command line
/// with no text.
pub fn get_args(args: &Vec<String>) -> (r: Result<EchoArgs, UsageError>)
    ensures
        ({
            let st = echo_parsed(args.deep_view());
            &&& (r is Err <==> st.bad is Some || st.text.len() == 0)
            &&& (st.bad is Some ==> r is Err && r->Err_0 is Unrecognized
                && r->Err_0->Unrecognized_0@ == st.bad->Some_0)
            &&& (st.bad is None && st.text.len() == 0 ==> r == Result::<
                EchoArgs,
                UsageError,
            >::Err(UsageError::MissingText))
            &&& (r is Ok ==> r->Ok_0.text.deep_view() == st.text && r->Ok_0.omit_newline
                == st.omit_newline)
        }),
{
    let ghost dv = args.deep_view();
    let mut text: Vec<String> = Vec::new();
    let mut omit_newline = false;
    let mut i: usize = 0;
    while i < args.len()
        invariant
            dv == args.deep_view(),
            dv.len() == args@.len(),
            i <= args@.len(),
            echo_upto(dv, i as int).bad is None,
            echo_upto(dv, i as int).text == text.deep_view(),
            echo_upto(dv, i as int).omit_newline == omit_newline,
        decreases args@.len() - i,
    {
        let t = &args[i];
        let ghost old_text = text.deep_view();
        proof {
            assert(t@ == dv[i as int]);
        }
        if str_eq(t.as_str(), "-n") {
            omit_newline = true;
        } else {
            let n = t.unicode_len();
            if n >= 2 && t.as_str().get_char(0) == '-' {
                proof {
                    lemma_echo_bad_stable(dv, i as int + 1, dv.len() as int);
                }
                return Err(UsageError::Unrecognized(t.clone()));
            } else {
                text.push(t.clone());
                proof {
                    assert(text.deep_view() =~= old_text.push(t@));
                }
            }
        }
        i = i + 1;
    }
    if text.len() == 0 {
        return Err(UsageError::MissingText);
    }
    Ok(EchoArgs { text, omit_newline })
}

} // verus!
