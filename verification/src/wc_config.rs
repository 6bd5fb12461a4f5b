//! Configuration of the word-count tool: the source tokens, the four metric
//! flags, the flag grammar, and the normalization of an empty selection.
use vstd::prelude::*;
use crate::text::str_eq;

verus! {

/// Which sources to read and which of the four metrics to report.
pub struct Config {
    pub files: Vec<String>,
    pub bytes: bool,
    pub chars: bool,
    pub lines: bool,
    pub words: bool,
}

/// No metric is selected.
pub open spec fn no_metric(bytes: bool, chars: bool, lines: bool, words: bool) -> bool {
    !bytes && !chars && !lines && !words
}

impl Config {
    /// Fills in the default selection: a configuration with no metric chosen
    /// behaves as if lines, words and bytes had been chosen (characters stay
    /// off); any other configuration is kept as it is.
    pub fn normalize(config: Self) -> (r: Config)
        ensures
            r.files == config.files,
            no_metric(config.bytes, config.chars, config.lines, config.words) ==> r.bytes && !r.chars
                && r.lines && r.words,
            !no_metric(config.bytes, config.chars, config.lines, config.words) ==> r == config,
    {
        if !config.bytes && !config.chars && !config.lines && !config.words {
            Config { bytes: true, lines: true, words: true, ..config }
        } else {
            config
        }
    }
}

/// A rejected command line: an argument the grammar does not know, or the
/// byte and character metrics selected together.
#[derive(Debug)]
pub enum UsageError {
    Unrecognized(String),
    MetricConflict,
}

/// How a rejected command line is reported.
pub open spec fn usage_error_line(e: UsageError) -> Seq<char> {
    match e {
        UsageError::Unrecognized(t) => "unexpected argument: "@ + t@,
        UsageError::MetricConflict => "the bytes and chars flags cannot be used together"@,
    }
}

impl UsageError {
    /// Renders the rejection for the error stream.
    pub fn message(&self) -> (s: String)
        ensures
            s@ == usage_error_line(*self),
    {
        match self {
            UsageError::Unrecognized(t) => {
                let mut s = String::from_str("unexpected argument: ");
                s.append(t.as_str());
                s
            },
            UsageError::MetricConflict => {
                String::from_str("the bytes and chars flags cannot be used together")
            },
        }
    }
}

/// What one command-line token means to the word-count tool.
pub enum TokenClass {
    FileName,
    Escape,
    BytesFlag,
    CharsFlag,
    LinesFlag,
    WordsFlag,
    Bad,
}

/// The grammar of one token: the eight metric flags, the bare `--` that makes
/// everything after it a file name, any other token starting with `-` (other
/// than `-` itself) rejected, and everything else a file name.
pub open spec fn classify(t: Seq<char>) -> TokenClass {
    if t == "-c"@ || t == "--bytes"@ {
        TokenClass::BytesFlag
    } else if t == "-m"@ || t == "--chars"@ {
        TokenClass::CharsFlag
    } else if t == "-l"@ || t == "--lines"@ {
        TokenClass::LinesFlag
    } else if t == "-w"@ || t == "--words"@ {
        TokenClass::WordsFlag
    } else if t == "--"@ {
        TokenClass::Escape
    } else if t.len() >= 2 && t[0] == '-' {
        TokenClass::Bad
    } else {
        TokenClass::FileName
    }
}

/// Decides `classify` on a concrete token.
pub fn classify_token(t: &str) -> (k: TokenClass)
    ensures
        k == classify(t@),
{
    if str_eq(t, "-c") || str_eq(t, "--bytes") {
        TokenClass::BytesFlag
    } else if str_eq(t, "-m") || str_eq(t, "--chars") {
        TokenClass::CharsFlag
    } else if str_eq(t, "-l") || str_eq(t, "--lines") {
        TokenClass::LinesFlag
    } else if str_eq(t, "-w") || str_eq(t, "--words") {
        TokenClass::WordsFlag
    } else if str_eq(t, "--") {
        TokenClass::Escape
    } else {
        let n = t.unicode_len();
        if n >= 2 && t.get_char(0) == '-' {
            TokenClass::Bad
        } else {
            TokenClass::FileName
        }
    }
}

/// What a prefix of the command line has established: the file names seen so
/// far, the flags seen so far, whether a `--` has been passed, and the first
/// rejected token, if any.
pub struct ParseState {
    pub files: Seq<Seq<char>>,
    pub bytes: bool,
    pub chars: bool,
    pub lines: bool,
    pub words: bool,
    pub escaped: bool,
    pub bad: Option<Seq<char>>,
}

/// The state before any token is read.
pub open spec fn parse_init() -> ParseState {
    ParseState {
        files: Seq::empty(),
        bytes: false,
        chars: false,
        lines: false,
        words: false,
        escaped: false,
        bad: None,
    }
}

/// One token's effect on the parse.
pub open spec fn parse_step(st: ParseState, t: Seq<char>) -> ParseState {
    if st.bad is Some {
        st
    } else if st.escaped {
        ParseState { files: st.files.push(t), ..st }
    } else {
        match classify(t) {
            TokenClass::FileName => ParseState { files: st.files.push(t), ..st },
            TokenClass::Escape => ParseState { escaped: true, ..st },
            TokenClass::BytesFlag => ParseState { bytes: true, ..st },
            TokenClass::CharsFlag => ParseState { chars: true, ..st },
            TokenClass::LinesFlag => ParseState { lines: true, ..st },
            TokenClass::WordsFlag => ParseState { words: true, ..st },
            TokenClass::Bad => ParseState { bad: Some(t), ..st },
        }
    }
}

/// The parse of the first `n` tokens.
pub open spec fn parse_upto(args: Seq<Seq<char>>, n: int) -> ParseState
    decreases n,
{
    if n <= 0 {
        parse_init()
    } else {
        parse_step(parse_upto(args, n - 1), args[n - 1])
    }
}

/// The parse of the whole command line.
pub open spec fn parsed(args: Seq<Seq<char>>) -> ParseState {
    parse_upto(args, args.len() as int)
}

proof fn lemma_parse_bad_stable(args: Seq<Seq<char>>, n: int, m: int)
    requires
        0 <= n <= m,
        parse_upto(args, n).bad is Some,
    ensures
        parse_upto(args, m).bad == parse_upto(args, n).bad,
    decreases m - n,
{
    if n < m {
        lemma_parse_bad_stable(args, n, m - 1);
    }
}

impl Config {
    /// Reads the command line into a configuration and fills in the default
    /// selection. Rejects a token the grammar does not know, and the byte and
    /// character metrics together — both before any source is read. With no
    /// file token the single token `-`, standard input, is the source.
    pub fn parse_and_normalize(args: &Vec<String>) -> (r: Result<Config, UsageError>)
        ensures
            ({
                let st = parsed(args.deep_view());
                &&& (r is Err <==> st.bad is Some || (st.bytes && st.chars))
                &&& (st.bad is Some ==> r == Result::<Config, UsageError>::Err(
                    UsageError::Unrecognized(r->Err_0->Unrecognized_0),
                ) && r->Err_0->Unrecognized_0@ == st.bad->Some_0)
                &&& (st.bad is None && st.bytes && st.chars ==> r
                    == Result::<Config, UsageError>::Err(UsageError::MetricConflict))
                &&& (r is Ok ==> ({
                    let c = r->Ok_0;
                    &&& c.files.deep_view() == (if st.files.len() == 0 {
                        seq!["-"@]
                    } else {
                        st.files
                    })
                    &&& (no_metric(st.bytes, st.chars, st.lines, st.words) ==> c.bytes && !c.chars
                        && c.lines && c.words)
                    &&& (!no_metric(st.bytes, st.chars, st.lines, st.words) ==> c.bytes == st.bytes
                        && c.chars == st.chars && c.lines == st.lines && c.words == st.words)
                }))
            }),
    {
        let ghost dv = args.deep_view();
        let mut files: Vec<String> = Vec::new();
        let mut bytes = false;
        let mut chars = false;
        let mut lines = false;
        let mut words = false;
        let mut escaped = false;
        let mut i: usize = 0;
        while i < args.len()
            invariant
                dv == args.deep_view(),
                dv.len() == args@.len(),
                i <= args@.len(),
                parse_upto(dv, i as int).bad is None,
                parse_upto(dv, i as int).files == files.deep_view(),
                parse_upto(dv, i as int).bytes == bytes,
                parse_upto(dv, i as int).chars == chars,
                parse_upto(dv, i as int).lines == lines,
                parse_upto(dv, i as int).words == words,
                parse_upto(dv, i as int).escaped == escaped,
            decreases args@.len() - i,
        {
            let t = &args[i];
            let ghost old_files = files.deep_view();
            proof {
                assert(t@ == dv[i as int]);
                assert(parse_upto(dv, i as int + 1) == parse_step(
                    parse_upto(dv, i as int),
                    dv[i as int],
                ));
            }
            if escaped {
                files.push(t.clone());
                proof {
                    assert(files.deep_view() =~= old_files.push(t@));
                }
            } else {
                match classify_token(t.as_str()) {
                    TokenClass::FileName => {
                        files.push(t.clone());
                        proof {
                            assert(files.deep_view() =~= old_files.push(t@));
                        }
                    },
                    TokenClass::Escape => {
                        escaped = true;
                    },
                    TokenClass::BytesFlag => {
                        bytes = true;
                    },
                    TokenClass::CharsFlag => {
                        chars = true;
                    },
                    TokenClass::LinesFlag => {
                        lines = true;
                    },
                    TokenClass::WordsFlag => {
                        words = true;
                    },
                    TokenClass::Bad => {
                        proof {
                            lemma_parse_bad_stable(dv, i as int + 1, dv.len() as int);
                        }
                        return Err(UsageError::Unrecognized(t.clone()));
                    },
                }
            }
            i = i + 1;
        }
        if bytes && chars {
            return Err(UsageError::MetricConflict);
        }
        if files.len() == 0 {
            files.push(String::from_str("-"));
            proof {
                assert(files.deep_view() =~= seq!["-"@]);
            }
        }
        let config = Config { files, bytes, chars, lines, words };
        Ok(Config::normalize(config))
    }
}

/// Reads the command line for the word-count tool; see `parse_and_normalize`.
pub fn get_args(args: &Vec<String>) -> (r: Result<Config, UsageError>)
    ensures
        ({
            let st = parsed(args.deep_view());
            &&& (r is Err <==> st.bad is Some || (st.bytes && st.chars))
            &&& (st.bad is Some ==> r == Result::<Config, UsageError>::Err(
                UsageError::Unrecognized(r->Err_0->Unrecognized_0),
            ) && r->Err_0->Unrecognized_0@ == st.bad->Some_0)
            &&& (st.bad is None && st.bytes && st.chars ==> r == Result::<Config, UsageError>::Err(
                UsageError::MetricConflict,
            ))
            &&& (r is Ok ==> ({
                let c = r->Ok_0;
                &&& c.files.deep_view() == (if st.files.len() == 0 {
                    seq!["-"@]
                } else {
                    st.files
                })
                &&& (no_metric(st.bytes, st.chars, st.lines, st.words) ==> c.bytes && !c.chars
                    && c.lines && c.words)
                &&& (!no_metric(st.bytes, st.chars, st.lines, st.words) ==> c.bytes == st.bytes
                    && c.chars == st.chars && c.lines == st.lines && c.words == st.words)
            }))
        }),
{
    Config::parse_and_normalize(args)
}

} // verus!

