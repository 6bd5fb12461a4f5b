//! The counting core of the word-count tool: the per-source tally, the
//! aggregation over many sources, and the fixed-width formatter.
use vstd::prelude::*;
use vstd::utf8::encode_utf8;
use crate::numerals::{format_field, padded_dec};
use crate::text::{count_words, word_count};
use crate::wc_config::Config;

verus! {

/// The raw byte length of a line: the length of its UTF-8 encoding.
pub open spec fn line_bytes(s: Seq<char>) -> nat {
    encode_utf8(s).len()
}

/// Sum of the raw byte lengths of the given lines.
pub open spec fn lines_bytes(ls: Seq<Seq<char>>) -> nat
    decreases ls.len(),
{
    if ls.len() == 0 {
        0
    } else {
        lines_bytes(ls.drop_last()) + line_bytes(ls.last())
    }
}

/// Sum of the character counts of the given lines.
pub open spec fn lines_chars(ls: Seq<Seq<char>>) -> nat
    decreases ls.len(),
{
    if ls.len() == 0 {
        0
    } else {
        lines_chars(ls.drop_last()) + ls.last().len()
    }
}

/// Sum of the word counts of the given lines.
pub open spec fn lines_words(ls: Seq<Seq<char>>) -> nat
    decreases ls.len(),
{
    if ls.len() == 0 {
        0
    } else {
        lines_words(ls.drop_last()) + word_count(ls.last())
    }
}

proof fn lemma_lines_take_step(ls: Seq<Seq<char>>, i: int)
    requires
        0 <= i < ls.len(),
    ensures
        lines_bytes(ls.take(i + 1)) == lines_bytes(ls.take(i)) + line_bytes(ls[i]),
        lines_chars(ls.take(i + 1)) == lines_chars(ls.take(i)) + ls[i].len(),
        lines_words(ls.take(i + 1)) == lines_words(ls.take(i)) + word_count(ls[i]),
{
    assert(ls.take(i + 1).drop_last() =~= ls.take(i));
    assert(ls.take(i + 1).last() == ls[i]);
}

proof fn lemma_lines_prefix_le(ls: Seq<Seq<char>>, i: int)
    requires
        0 <= i <= ls.len(),
    ensures
        lines_bytes(ls.take(i)) <= lines_bytes(ls),
        lines_chars(ls.take(i)) <= lines_chars(ls),
        lines_words(ls.take(i)) <= lines_words(ls),
    decreases ls.len() - i,
{
    if i == ls.len() {
        assert(ls.take(i) =~= ls);
    } else {
        lemma_lines_take_step(ls, i);
        lemma_lines_prefix_le(ls, i + 1);
    }
}

/// The four counts of one source, or of the aggregate of several.
pub struct Tally {
    pub name: String,
    pub bytes: u64,
    pub chars: u64,
    pub lines: u64,
    pub words: u64,
}

impl Tally {
    /// A tally of nothing, carrying the source's name.
    pub fn new(name: String) -> (t: Tally)
        ensures
            t.name == name,
            t.bytes == 0 && t.chars == 0 && t.lines == 0 && t.words == 0,
    {
        Tally { name, bytes: 0, chars: 0, lines: 0, words: 0 }
    }

    /// Accounts one line read from the source: its raw byte length, its
    /// character count, one more line, and its word count.
    pub fn add_line(&mut self, line: &str)
        requires
            old(self).bytes + line_bytes(line@) <= u64::MAX,
            old(self).chars + line@.len() <= u64::MAX,
            old(self).lines + 1 <= u64::MAX,
            old(self).words + word_count(line@) <= u64::MAX,
        ensures
            final(self).name == old(self).name,
            final(self).bytes == old(self).bytes + line_bytes(line@),
            final(self).chars == old(self).chars + line@.len(),
            final(self).lines == old(self).lines + 1,
            final(self).words == old(self).words + word_count(line@),
    {
        let b = line.as_bytes().len();
        let c = line.unicode_len();
        let w = count_words(line);
        self.bytes = self.bytes + (b as u64);
        self.chars = self.chars + (c as u64);
        self.lines = self.lines + 1;
        self.words = self.words + (w as u64);
    }

    /// The tally of a whole source given as its sequence of raw lines, each
    /// with its terminating newline where the source had one.
    pub fn of_lines(name: String, lines: &Vec<String>) -> (t: Tally)
        requires
            lines_bytes(lines.deep_view()) <= u64::MAX,
            lines_chars(lines.deep_view()) <= u64::MAX,
            lines_words(lines.deep_view()) <= u64::MAX,
        ensures
            t.name == name,
            t.bytes == lines_bytes(lines.deep_view()),
            t.chars == lines_chars(lines.deep_view()),
            t.lines == lines@.len(),
            t.words == lines_words(lines.deep_view()),
    {
        let ghost dv = lines.deep_view();
        let mut t = Tally::new(name);
        let mut i: usize = 0;
        proof {
            assert(dv.take(0) =~= Seq::<Seq<char>>::empty());
        }
        while i < lines.len()
            invariant
                i <= lines.len(),
                dv == lines.deep_view(),
                lines_bytes(dv) <= u64::MAX,
                lines_chars(dv) <= u64::MAX,
                lines_words(dv) <= u64::MAX,
                t.name == name,
                t.bytes == lines_bytes(dv.take(i as int)),
                t.chars == lines_chars(dv.take(i as int)),
                t.lines == i,
                t.words == lines_words(dv.take(i as int)),
            decreases lines.len() - i,
        {
            let line = lines[i].as_str();
            proof {
                assert(line@ == dv[i as int]);
                lemma_lines_take_step(dv, i as int);
                lemma_lines_prefix_le(dv, i as int + 1);
            }
            t.add_line(line);
            i = i + 1;
        }
        proof {
            assert(dv.take(lines@.len() as int) =~= dv);
        }
        t
    }
}

/// A failure scoped to one source: either it could not be opened, or reading
/// it failed midway. Both carry the source's name and the underlying cause.
#[derive(Debug)]
pub enum FileError {
    Open { name: String, cause: String },
    Read { name: String, cause: String },
}

/// The name of the source an error belongs to.
pub open spec fn error_name(e: FileError) -> Seq<char> {
    match e {
        FileError::Open { name, .. } => name@,
        FileError::Read { name, .. } => name@,
    }
}

/// The underlying cause an error carries.
pub open spec fn error_cause(e: FileError) -> Seq<char> {
    match e {
        FileError::Open { cause, .. } => cause@,
        FileError::Read { cause, .. } => cause@,
    }
}

/// How a source error is reported: the source's name, then the cause.
pub open spec fn error_line(e: FileError) -> Seq<char> {
    error_name(e) + ": "@ + error_cause(e)
}

impl FileError {
    /// Renders the error for the error stream.
    pub fn message(&self) -> (s: String)
        ensures
            s@ == error_line(*self),
    {
        let (name, cause) = match self {
            FileError::Open { name, cause } => (name, cause),
            FileError::Read { name, cause } => (name, cause),
        };
        let mut s = name.clone();
        s.append(": ");
        s.append(cause.as_str());
        s
    }
}

/// Sum of the byte counts of the successful results.
pub open spec fn sum_bytes(rs: Seq<Result<Tally, FileError>>) -> nat
    decreases rs.len(),
{
    if rs.len() == 0 {
        0
    } else {
        sum_bytes(rs.drop_last()) + (if rs.last() is Ok {
            rs.last()->Ok_0.bytes as nat
        } else {
            0nat
        })
    }
}

/// Sum of the character counts of the successful results.
pub open spec fn sum_chars(rs: Seq<Result<Tally, FileError>>) -> nat
    decreases rs.len(),
{
    if rs.len() == 0 {
        0
    } else {
        sum_chars(rs.drop_last()) + (if rs.last() is Ok {
            rs.last()->Ok_0.chars as nat
        } else {
            0nat
        })
    }
}

/// Sum of the line counts of the successful results.
pub open spec fn sum_lines(rs: Seq<Result<Tally, FileError>>) -> nat
    decreases rs.len(),
{
    if rs.len() == 0 {
        0
    } else {
        sum_lines(rs.drop_last()) + (if rs.last() is Ok {
            rs.last()->Ok_0.lines as nat
        } else {
            0nat
        })
    }
}

/// Sum of the word counts of the successful results.
pub open spec fn sum_words(rs: Seq<Result<Tally, FileError>>) -> nat
    decreases rs.len(),
{
    if rs.len() == 0 {
        0
    } else {
        sum_words(rs.drop_last()) + (if rs.last() is Ok {
            rs.last()->Ok_0.words as nat
        } else {
            0nat
        })
    }
}

proof fn lemma_sums_take_step(rs: Seq<Result<Tally, FileError>>, i: int)
    requires
        0 <= i < rs.len(),
    ensures
        sum_bytes(rs.take(i + 1)) == sum_bytes(rs.take(i)) + (if rs[i] is Ok {
            rs[i]->Ok_0.bytes as nat
        } else {
            0nat
        }),
        sum_chars(rs.take(i + 1)) == sum_chars(rs.take(i)) + (if rs[i] is Ok {
            rs[i]->Ok_0.chars as nat
        } else {
            0nat
        }),
        sum_lines(rs.take(i + 1)) == sum_lines(rs.take(i)) + (if rs[i] is Ok {
            rs[i]->Ok_0.lines as nat
        } else {
            0nat
        }),
        sum_words(rs.take(i + 1)) == sum_words(rs.take(i)) + (if rs[i] is Ok {
            rs[i]->Ok_0.words as nat
        } else {
            0nat
        }),
{
    assert(rs.take(i + 1).drop_last() =~= rs.take(i));
    assert(rs.take(i + 1).last() == rs[i]);
}

proof fn lemma_sums_prefix_le(rs: Seq<Result<Tally, FileError>>, i: int)
    requires
        0 <= i <= rs.len(),
    ensures
        sum_bytes(rs.take(i)) <= sum_bytes(rs),
        sum_chars(rs.take(i)) <= sum_chars(rs),
        sum_lines(rs.take(i)) <= sum_lines(rs),
        sum_words(rs.take(i)) <= sum_words(rs),
    decreases rs.len() - i,
{
    if i == rs.len() {
        assert(rs.take(i) =~= rs);
    } else {
        lemma_sums_take_step(rs, i);
        lemma_sums_prefix_le(rs, i + 1);
    }
}

/// The aggregate tally, named `total`, of the successful results: failed
/// sources contribute nothing and are skipped, not fatal.
pub fn total_of(results: &Vec<Result<Tally, FileError>>) -> (t: Tally)
    requires
        sum_bytes(results@) <= u64::MAX,
        sum_chars(results@) <= u64::MAX,
        sum_lines(results@) <= u64::MAX,
        sum_words(results@) <= u64::MAX,
    ensures
        t.name@ == "total"@,
        t.bytes == sum_bytes(results@),
        t.chars == sum_chars(results@),
        t.lines == sum_lines(results@),
        t.words == sum_words(results@),
{
    let mut t = Tally::new(String::from_str("total"));
    let mut i: usize = 0;
    proof {
        assert(results@.take(0) =~= Seq::<Result<Tally, FileError>>::empty());
    }
    while i < results.len()
        invariant
            i <= results@.len(),
            sum_bytes(results@) <= u64::MAX,
            sum_chars(results@) <= u64::MAX,
            sum_lines(results@) <= u64::MAX,
            sum_words(results@) <= u64::MAX,
            t.name@ == "total"@,
            t.bytes == sum_bytes(results@.take(i as int)),
            t.chars == sum_chars(results@.take(i as int)),
            t.lines == sum_lines(results@.take(i as int)),
            t.words == sum_words(results@.take(i as int)),
        decreases results@.len() - i,
    {
        proof {
            lemma_sums_take_step(results@, i as int);
            lemma_sums_prefix_le(results@, i as int + 1);
        }
        match &results[i] {
            Ok(info) => {
                t.bytes = t.bytes + info.bytes;
                t.chars = t.chars + info.chars;
                t.lines = t.lines + info.lines;
                t.words = t.words + info.words;
            },
            Err(_) => {},
        }
        i = i + 1;
    }
    proof {
        assert(results@.take(results@.len() as int) =~= results@);
    }
    t
}

/// The formatted report line for the given counts under the given flags: each
/// enabled metric right-aligned in a field of minimum width eight, in the
/// fixed order lines, words, bytes, characters; then a space and the source's
/// name, unless the name is the standard-input token `-`, which shows no name.
pub open spec fn formatted_counts(
    c: Config,
    lines: nat,
    words: nat,
    bytes: nat,
    chars: nat,
    name: Seq<char>,
) -> Seq<char> {
    (if c.lines {
        padded_dec(lines, 8)
    } else {
        Seq::<char>::empty()
    }) + (if c.words {
        padded_dec(words, 8)
    } else {
        Seq::<char>::empty()
    }) + (if c.bytes {
        padded_dec(bytes, 8)
    } else {
        Seq::<char>::empty()
    }) + (if c.chars {
        padded_dec(chars, 8)
    } else {
        Seq::<char>::empty()
    }) + (if name == seq!['-'] {
        Seq::<char>::empty()
    } else {
        seq![' '] + name
    })
}

/// The formatted report line for one tally.
pub open spec fn formatted_tally(c: Config, t: Tally) -> Seq<char> {
    formatted_counts(c, t.lines as nat, t.words as nat, t.bytes as nat, t.chars as nat, t.name@)
}

/// Renders one tally as its report line.
pub fn format_tally(config: &Config, t: &Tally) -> (s: String)
    ensures
        s@ == formatted_tally(*config, *t),
{
    let mut s = String::new();
    if config.lines {
        s.append(format_field(t.lines, 8).as_str());
    }
    if config.words {
        s.append(format_field(t.words, 8).as_str());
    }
    if config.bytes {
        s.append(format_field(t.bytes, 8).as_str());
    }
    if config.chars {
        s.append(format_field(t.chars, 8).as_str());
    }
    let is_stdin = t.name.as_str().unicode_len() == 1 && t.name.as_str().get_char(0) == '-';
    if !is_stdin {
        s.append(" ");
        s.append(t.name.as_str());
    }
    proof {
        reveal_strlit(" ");
        if is_stdin {
            assert(t.name@ =~= seq!['-']);
        }
        assert(s@ =~= formatted_tally(*config, *t));
    }
    s
}

/// The report lines of the successful results, in input order.
pub open spec fn out_lines(c: Config, rs: Seq<Result<Tally, FileError>>) -> Seq<Seq<char>>
    decreases rs.len(),
{
    if rs.len() == 0 {
        Seq::empty()
    } else {
        out_lines(c, rs.drop_last()) + (if rs.last() is Ok {
            seq![formatted_tally(c, rs.last()->Ok_0)]
        } else {
            Seq::<Seq<char>>::empty()
        })
    }
}

/// The error-stream lines of the failed results, in input order.
pub open spec fn err_lines(rs: Seq<Result<Tally, FileError>>) -> Seq<Seq<char>>
    decreases rs.len(),
{
    if rs.len() == 0 {
        Seq::empty()
    } else {
        err_lines(rs.drop_last()) + (if rs.last() is Err {
            seq![error_line(rs.last()->Err_0)]
        } else {
            Seq::<Seq<char>>::empty()
        })
    }
}

/// The report line of the aggregate of the successful results.
pub open spec fn total_line(c: Config, rs: Seq<Result<Tally, FileError>>) -> Seq<char> {
    formatted_counts(c, sum_lines(rs), sum_words(rs), sum_bytes(rs), sum_chars(rs), "total"@)
}

proof fn lemma_report_take_step(c: Config, rs: Seq<Result<Tally, FileError>>, i: int)
    requires
        0 <= i < rs.len(),
    ensures
        out_lines(c, rs.take(i + 1)) == out_lines(c, rs.take(i)) + (if rs[i] is Ok {
            seq![formatted_tally(c, rs[i]->Ok_0)]
        } else {
            Seq::<Seq<char>>::empty()
        }),
        err_lines(rs.take(i + 1)) == err_lines(rs.take(i)) + (if rs[i] is Err {
            seq![error_line(rs[i]->Err_0)]
        } else {
            Seq::<Seq<char>>::empty()
        }),
{
    assert(rs.take(i + 1).drop_last() =~= rs.take(i));
    assert(rs.take(i + 1).last() == rs[i]);
}

/// Renders the whole report: the report line of every successful source in
/// input order — followed by the `total` line exactly when more than one
/// source was requested — and the error line of every failed source.
pub fn render_report(config: &Config, results: &Vec<Result<Tally, FileError>>) -> (r: (
    Vec<String>,
    Vec<String>,
))
    requires
        sum_bytes(results@) <= u64::MAX,
        sum_chars(results@) <= u64::MAX,
        sum_lines(results@) <= u64::MAX,
        sum_words(results@) <= u64::MAX,
    ensures
        r.0.deep_view() == out_lines(*config, results@) + (if results@.len() > 1 {
            seq![total_line(*config, results@)]
        } else {
            Seq::<Seq<char>>::empty()
        }),
        r.1.deep_view() == err_lines(results@),
{
    let mut out: Vec<String> = Vec::new();
    let mut errs: Vec<String> = Vec::new();
    let mut i: usize = 0;
    proof {
        assert(out.deep_view() =~= out_lines(*config, results@.take(0)));
        assert(errs.deep_view() =~= err_lines(results@.take(0)));
    }
    while i < results.len()
        invariant
            i <= results@.len(),
            out.deep_view() == out_lines(*config, results@.take(i as int)),
            errs.deep_view() == err_lines(results@.take(i as int)),
        decreases results@.len() - i,
    {
        let ghost old_out = out.deep_view();
        let ghost old_errs = errs.deep_view();
        proof {
            lemma_report_take_step(*config, results@, i as int);
        }
        match &results[i] {
            Ok(info) => {
                let line = format_tally(config, info);
                out.push(line);
                proof {
                    assert(out.deep_view() =~= old_out.push(
                        formatted_tally(*config, results@[i as int]->Ok_0),
                    ));
                    assert(old_out.push(formatted_tally(*config, results@[i as int]->Ok_0))
                        =~= old_out + seq![formatted_tally(*config, results@[i as int]->Ok_0)]);
                }
            },
            Err(e) => {
                let line = e.message();
                errs.push(line);
                proof {
                    assert(errs.deep_view() =~= old_errs.push(
                        error_line(results@[i as int]->Err_0),
                    ));
                    assert(old_errs.push(error_line(results@[i as int]->Err_0)) =~= old_errs
                        + seq![error_line(results@[i as int]->Err_0)]);
                }
            },
        }
        i = i + 1;
    }
    proof {
        assert(results@.take(results@.len() as int) =~= results@);
    }
    if results.len() > 1 {
        let ghost old_out = out.deep_view();
        let total = total_of(results);
        let line = format_tally(config, &total);
        out.push(line);
        proof {
            assert(out.deep_view() =~= old_out.push(total_line(*config, results@)));
            assert(old_out.push(total_line(*config, results@)) =~= old_out + seq![
                total_line(*config, results@),
            ]);
        }
    } else {
        proof {
            assert(out.deep_view() + Seq::<Seq<char>>::empty() =~= out.deep_view());
        }
    }
    (out, errs)
}

} // verus!


