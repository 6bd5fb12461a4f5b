//! The line-printing tool: its argument grammar and the numbering of output
//! lines, either of every line or of the non-blank lines only.
use vstd::prelude::*;
use crate::numerals::{format_field, padded_dec};
use crate::text::str_eq;

verus! {

/// The tool's arguments: the sources, and which lines are numbered.
pub struct Arg {
    pub files: Vec<String>,
    pub number: bool,
    pub number_nonblank: bool,
}

/// A rejected command line: an unknown argument, or both numbering modes.
#[derive(Debug)]
pub enum UsageError {
    Unrecognized(String),
    NumberConflict,
}

impl UsageError {
    /// Renders the rejection for the error stream.
    pub fn message(&self) -> (s: String)
        ensures
            (*self is Unrecognized ==> s@ == "unexpected argument: "@ + self->Unrecognized_0@),
            (*self is NumberConflict ==> s@
                == "the number and number-nonblank flags cannot be used together"@),
    {
        match self {
            UsageError::Unrecognized(t) => {
                let mut s = String::from_str("unexpected argument: ");
                s.append(t.as_str());
                s
            },
            UsageError::NumberConflict => {
                String::from_str("the number and number-nonblank flags cannot be used together")
            },
        }
    }
}

/// What a prefix of the command line has established.
pub struct CatState {
    pub files: Seq<Seq<char>>,
    pub number: bool,
    pub number_nonblank: bool,
    pub escaped: bool,
    pub bad: Option<Seq<char>>,
}

/// One token's effect on the parse.
pub open spec fn cat_step(st: CatState, t: Seq<char>) -> CatState {
    if st.bad is Some {
        st
    } else if st.escaped {
        CatState { files: st.files.push(t), ..st }
    } else if t == "-n"@ || t == "--number"@ {
        CatState { number: true, ..st }
    } else if t == "-b"@ || t == "--number-nonblank"@ {
        CatState { number_nonblank: true, ..st }
    } else if t == "--"@ {
        CatState { escaped: true, ..st }
    } else if t.len() >= 2 && t[0] == '-' {
        CatState { bad: Some(t), ..st }
    } else {
        CatState { files: st.files.push(t), ..st }
    }
}

/// The parse of the first `n` tokens.
pub open spec fn cat_upto(args: Seq<Seq<char>>, n: int) -> CatState
    decreases n,
{
    if n <= 0 {
        CatState {
            files: Seq::empty(),
            number: false,
            number_nonblank: false,
            escaped: false,
            bad: None,
        }
    } else {
        cat_step(cat_upto(args, n - 1), args[n - 1])
    }
}

/// The parse of the whole command line.
pub open spec fn cat_parsed(args: Seq<Seq<char>>) -> CatState {
    cat_upto(args, args.len() as int)
}

proof fn lemma_cat_bad_stable(args: Seq<Seq<char>>, n: int, m: int)
    requires
        0 <= n <= m,
        cat_upto(args, n).bad is Some,
    ensures
        cat_upto(args, m).bad == cat_upto(args, n).bad,
    decreases m - n,
{
    if n < m {
        lemma_cat_bad_stable(args, n, m - 1);
    }
}

/// Reads the command line. Rejects a token the grammar does not know, and the
/// two numbering modes together. With no file token the single token `-`,
/// standard input, is the source.
pub fn get_args(args: &Vec<String>) -> (r: Result<Arg, UsageError>)
    ensures
        ({
            let st = cat_parsed(args.deep_view());
            &&& (r is Err <==> st.bad is Some || (st.number && st.number_nonblank))
            &&& (st.bad is Some ==> r is Err && r->Err_0 is Unrecognized
                && r->Err_0->Unrecognized_0@ == st.bad->Some_0)
            &&& (st.bad is None && st.number && st.number_nonblank ==> r == Result::<
                Arg,
                UsageError,
            >::Err(UsageError::NumberConflict))
            &&& (r is Ok ==> ({
                let a = r->Ok_0;
                &&& a.files.deep_view() == (if st.files.len() == 0 {
                    seq!["-"@]
                } else {
                    st.files
                })
                &&& a.number == st.number
                &&& a.number_nonblank == st.number_nonblank
            }))
        }),
{
    let ghost dv = args.deep_view();
    let mut files: Vec<String> = Vec::new();
    let mut number = false;
    let mut number_nonblank = false;
    let mut escaped = false;
    let mut i: usize = 0;
    while i < args.len()
        invariant
            dv == args.deep_view(),
            dv.len() == args@.len(),
            i <= args@.len(),
            cat_upto(dv, i as int).bad is None,
            cat_upto(dv, i as int).files == files.deep_view(),
            cat_upto(dv, i as int).number == number,
            cat_upto(dv, i as int).number_nonblank == number_nonblank,
            cat_upto(dv, i as int).escaped == escaped,
        decreases args@.len() - i,
    {
        let t = &args[i];
        let ghost old_files = files.deep_view();
        proof {
            assert(t@ == dv[i as int]);
        }
        if escaped {
            files.push(t.clone());
            proof {
                assert(files.deep_view() =~= old_files.push(t@));
            }
        } else if str_eq(t.as_str(), "-n") || str_eq(t.as_str(), "--number") {
            number = true;
        } else if str_eq(t.as_str(), "-b") || str_eq(t.as_str(), "--number-nonblank") {
            number_nonblank = true;
        } else if str_eq(t.as_str(), "--") {
            escaped = true;
        } else {
            let n = t.unicode_len();
            if n >= 2 && t.as_str().get_char(0) == '-' {
                proof {
                    lemma_cat_bad_stable(dv, i as int + 1, dv.len() as int);
                }
                return Err(UsageError::Unrecognized(t.clone()));
            } else {
                files.push(t.clone());
                proof {
                    assert(files.deep_view() =~= old_files.push(t@));
                }
            }
        }
        i = i + 1;
    }
    if number && number_nonblank {
        return Err(UsageError::NumberConflict);
    }
    if files.len() == 0 {
        files.push(String::from_str("-"));
        proof {
            assert(files.deep_view() =~= seq!["-"@]);
        }
    }
    Ok(Arg { files, number, number_nonblank })
}

/// Whether this line gets a number: always under `number`, only when the line
/// is non-blank under `number_nonblank`.
pub open spec fn gets_number(number: bool, nonblank: bool, ln: Seq<char>) -> bool {
    number || (nonblank && ln.len() > 0)
}

/// The number the line at position `n` would carry: one more than the count
/// of numbered lines before it.
pub open spec fn counter_at(number: bool, nonblank: bool, lines: Seq<Seq<char>>, n: int) -> nat
    decreases n,
{
    if n <= 0 {
        1
    } else {
        counter_at(number, nonblank, lines, n - 1) + (if gets_number(
            number,
            nonblank,
            lines[n - 1],
        ) {
            1nat
        } else {
            0nat
        })
    }
}

/// One rendered output line: the line itself, prefixed — when it is numbered
/// — by its number right-aligned in a field of width six and a tab.
pub open spec fn numbered_line(
    number: bool,
    nonblank: bool,
    ln: Seq<char>,
    counter: nat,
) -> Seq<char> {
    if gets_number(number, nonblank, ln) {
        padded_dec(counter, 6) + seq!['\t'] + ln
    } else {
        ln
    }
}

/// The rendered output of the first `n` lines of one source.
pub open spec fn cat_out_upto(
    number: bool,
    nonblank: bool,
    lines: Seq<Seq<char>>,
    n: int,
) -> Seq<Seq<char>>
    decreases n,
{
    if n <= 0 {
        Seq::empty()
    } else {
        cat_out_upto(number, nonblank, lines, n - 1).push(
            numbered_line(number, nonblank, lines[n - 1], counter_at(number, nonblank, lines, n - 1)),
        )
    }
}

/// The rendered output of one whole source, its lines given newline-stripped.
pub open spec fn cat_out(number: bool, nonblank: bool, lines: Seq<Seq<char>>) -> Seq<Seq<char>> {
    cat_out_upto(number, nonblank, lines, lines.len() as int)
}

proof fn lemma_counter_at_bound(number: bool, nonblank: bool, lines: Seq<Seq<char>>, n: int)
    requires
        n >= 0,
    ensures
        counter_at(number, nonblank, lines, n) <= n + 1,
    decreases n,
{
    if n > 0 {
        lemma_counter_at_bound(number, nonblank, lines, n - 1);
    }
}

impl Arg {
    /// Renders the lines of one source under this configuration; the line
    /// counter starts anew for each source.
    pub fn render_lines(&self, lines: &Vec<String>) -> (out: Vec<String>)
        requires
            lines@.len() < u64::MAX,
        ensures
            out.deep_view() == cat_out(self.number, self.number_nonblank, lines.deep_view()),
    {
        let ghost dv = lines.deep_view();
        let mut out: Vec<String> = Vec::new();
        let mut counter: u64 = 1;
        let mut i: usize = 0;
        proof {
            assert(out.deep_view() =~= cat_out_upto(self.number, self.number_nonblank, dv, 0));
        }
        while i < lines.len()
            invariant
                dv == lines.deep_view(),
                dv.len() == lines@.len(),
                lines@.len() < u64::MAX,
                i <= lines@.len(),
                counter == counter_at(self.number, self.number_nonblank, dv, i as int),
                out.deep_view() == cat_out_upto(self.number, self.number_nonblank, dv, i as int),
            decreases lines@.len() - i,
        {
            let ghost old_out = out.deep_view();
            let line = &lines[i];
            proof {
                assert(line@ == dv[i as int]);
                lemma_counter_at_bound(self.number, self.number_nonblank, dv, i as int);
            }
            let blank = line.as_str().unicode_len() == 0;
            if self.number || (self.number_nonblank && !blank) {
                let mut rendered = format_field(counter, 6);
                rendered.append("\t");
                rendered.append(line.as_str());
                proof {
                    reveal_strlit("\t");
                    assert(rendered@ =~= numbered_line(
                        self.number,
                        self.number_nonblank,
                        dv[i as int],
                        counter as nat,
                    ));
                }
                out.push(rendered);
                counter = counter + 1;
            } else {
                out.push(line.clone());
            }
            proof {
                assert(out.deep_view() =~= old_out.push(
                    numbered_line(
                        self.number,
                        self.number_nonblank,
                        dv[i as int],
                        counter_at(self.number, self.number_nonblank, dv, i as int),
                    ),
                ));
            }
            i = i + 1;
        }
        proof {
            assert(cat_out_upto(self.number, self.number_nonblank, dv, dv.len() as int) == cat_out(
                self.number,
                self.number_nonblank,
                dv,
            ));
        }
        out
    }
}

} // verus!
