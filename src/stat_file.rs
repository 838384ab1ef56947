use vstd::prelude::*;

use crate::error::CgStatsError;
use crate::text::{chars_eq, chars_of, digits_in, parse_digits};

verus! {

/// Unicode white space, as `char::is_whitespace` and `str::split_whitespace`
/// take it.
pub open spec fn is_space(c: char) -> bool {
    ('\t' <= c <= '\r') || c == ' ' || c == '\u{85}' || c == '\u{a0}' || c == '\u{1680}' || (
    '\u{2000}' <= c <= '\u{200a}') || c == '\u{2028}' || c == '\u{2029}' || c == '\u{202f}' || c
        == '\u{205f}' || c == '\u{3000}'
}

/// The pieces of `s` between line feeds, `cur` being the piece begun
/// before `s`; a last piece that is empty is no line (as `BufRead::lines`).
pub open spec fn lines_from(s: Seq<char>, cur: Seq<char>) -> Seq<Seq<char>>
    decreases s.len(),
{
    if s.len() == 0 {
        if cur.len() > 0 {
            seq![cur]
        } else {
            Seq::empty()
        }
    } else if s[0] == '\n' {
        seq![cur] + lines_from(s.drop_first(), Seq::empty())
    } else {
        lines_from(s.drop_first(), cur.push(s[0]))
    }
}

pub open spec fn lines(s: Seq<char>) -> Seq<Seq<char>> {
    lines_from(s, Seq::empty())
}

/// The maximal runs of non-space characters of `s`, `cur` being the run
/// begun before `s`.
pub open spec fn words_from(s: Seq<char>, cur: Seq<char>) -> Seq<Seq<char>>
    decreases s.len(),
{
    let done: Seq<Seq<char>> = if cur.len() > 0 {
        seq![cur]
    } else {
        Seq::empty()
    };
    if s.len() == 0 {
        done
    } else if is_space(s[0]) {
        done + words_from(s.drop_first(), Seq::empty())
    } else {
        words_from(s.drop_first(), cur.push(s[0]))
    }
}

pub open spec fn words(s: Seq<char>) -> Seq<Seq<char>> {
    words_from(s, Seq::empty())
}

/// What `str::parse::<u64>` gives for `t`: an optional `+`, then one or
/// more decimal digits whose value fits in 64 bits.
pub open spec fn u64_of(t: Seq<char>) -> Option<u64> {
    let start: int = if t.len() > 0 && t[0] == '+' {
        1
    } else {
        0
    };
    digits_in(t, start, t.len() as int, u64::MAX as nat)
}

pub open spec fn usage_field() -> Seq<char> {
    "usage_usec"@
}

/// The outcome of scanning the lines of a statistics file for the field.
pub enum StatScan {
    Found(u64),
    /// A line that is not one key and one value.
    NotAPair,
    /// A value that is no unsigned number.
    NotANumber(Seq<char>),
    /// No line holds the field.
    Missing,
}

/// Scans the lines in order: each must be a key and a value, each value
/// a number; the first line keyed `usage_usec` gives the counter.
pub open spec fn scan_lines(ls: Seq<Seq<char>>) -> StatScan
    decreases ls.len(),
{
    if ls.len() == 0 {
        StatScan::Missing
    } else {
        let w = words(ls[0]);
        if w.len() != 2 {
            StatScan::NotAPair
        } else if u64_of(w[1]) is None {
            StatScan::NotANumber(w[1])
        } else if w[0] == usage_field() {
            StatScan::Found(u64_of(w[1])->Some_0)
        } else {
            scan_lines(ls.drop_first())
        }
    }
}

pub open spec fn views(v: Seq<Vec<char>>) -> Seq<Seq<char>> {
    v.map_values(|x: Vec<char>| x@)
}

/// Splits `c` into lines.
pub fn split_lines(c: &Vec<char>) -> (r: Vec<Vec<char>>)
    ensures
        views(r@) == lines(c@),
{
    let mut out: Vec<Vec<char>> = Vec::new();
    let mut cur: Vec<char> = Vec::new();
    let mut i: usize = 0;
    assert(c@.skip(0) == c@);
    while i < c.len()
        invariant
            i <= c.len(),
            lines(c@) == views(out@) + lines_from(c@.skip(i as int), cur@),
        decreases c.len() - i,
    {
        let ghost rest = c@.skip(i as int);
        assert(rest.drop_first() == c@.skip(i + 1));
        if c[i] == '\n' {
            let ghost before = views(out@);
            let done = cur;
            cur = Vec::new();
            out.push(done);
            assert(views(out@) == before + seq![done@]);
            assert(lines_from(rest, done@) == seq![done@] + lines_from(c@.skip(i + 1), cur@));
        } else {
            cur.push(c[i]);
        }
        i = i + 1;
    }
    assert(c@.skip(i as int).len() == 0);
    if cur.len() > 0 {
        let ghost before = views(out@);
        out.push(cur);
        assert(views(out@) == before + seq![cur@]);
    } else {
        assert(views(out@) + Seq::<Seq<char>>::empty() == views(out@));
    }
    out
}

/// Splits `c` into its maximal runs of non-space characters.
pub fn split_words(c: &Vec<char>) -> (r: Vec<Vec<char>>)
    ensures
        views(r@) == words(c@),
{
    let mut out: Vec<Vec<char>> = Vec::new();
    let mut cur: Vec<char> = Vec::new();
    let mut i: usize = 0;
    assert(c@.skip(0) == c@);
    while i < c.len()
        invariant
            i <= c.len(),
            words(c@) == views(out@) + words_from(c@.skip(i as int), cur@),
        decreases c.len() - i,
    {
        let ghost rest = c@.skip(i as int);
        assert(rest.drop_first() == c@.skip(i + 1));
        if is_space_char(c[i]) {
            let ghost before = views(out@);
            if cur.len() > 0 {
                let done = cur;
                cur = Vec::new();
                out.push(done);
                assert(views(out@) == before + seq![done@]);
                assert(words_from(rest, done@) == seq![done@] + words_from(
                    c@.skip(i + 1),
                    cur@,
                ));
            } else {
                assert(words_from(rest, cur@) == Seq::<Seq<char>>::empty() + words_from(
                    c@.skip(i + 1),
                    Seq::empty(),
                ));
                assert(cur@ == Seq::<char>::empty());
            }
        } else {
            cur.push(c[i]);
        }
        i = i + 1;
    }
    assert(c@.skip(i as int).len() == 0);
    if cur.len() > 0 {
        let ghost before = views(out@);
        out.push(cur);
        assert(views(out@) == before + seq![cur@]);
    } else {
        assert(views(out@) + Seq::<Seq<char>>::empty() == views(out@));
    }
    out
}

/// Whether `c` is white space.
pub fn is_space_char(c: char) -> (r: bool)
    ensures
        r == is_space(c),
{
    ('\t' <= c && c <= '\r') || c == ' ' || c == '\u{85}' || c == '\u{a0}' || c == '\u{1680}' || (
    '\u{2000}' <= c && c <= '\u{200a}') || c == '\u{2028}' || c == '\u{2029}' || c == '\u{202f}'
        || c == '\u{205f}' || c == '\u{3000}'
}

/// Parses a value as `str::parse::<u64>` does.
pub fn parse_u64(t: &Vec<char>) -> (r: Option<u64>)
    ensures
        r == u64_of(t@),
{
    let start: usize = if t.len() > 0 && t[0] == '+' {
        1
    } else {
        0
    };
    parse_digits(t, start, t.len(), u64::MAX)
}

/// Whether `r` is what reading a statistics file at `path` that holds
/// `text` gives.
pub open spec fn stat_read_as(r: Result<u64, CgStatsError>, path: Seq<char>, text: Seq<char>) -> bool {
    match scan_lines(lines(text)) {
        StatScan::Found(v) => r == Ok::<u64, CgStatsError>(v),
        StatScan::NotAPair => r matches Err(CgStatsError::ParseError { path: p }) && p@ == path,
        StatScan::NotANumber(_) => r matches Err(CgStatsError::ParseIntError { path: p }) && p@
            == path,
        StatScan::Missing => r matches Err(CgStatsError::MissingField { path: p, field: f }) && p@
            == path && f@ == usage_field(),
    }
}

/// Reads the CPU usage counter, in microseconds, out of the text of a
/// cgroup's `cpu.stat` file found at `path`.
pub fn parse_cg_stat(path: &str, text: &str) -> (r: Result<u64, CgStatsError>)
    ensures
        stat_read_as(r, path@, text@),
{
    let c = chars_of(text);
    let ls = split_lines(&c);
    let key = chars_of("usage_usec");
    let mut i: usize = 0;
    assert(views(ls@).skip(0) == views(ls@));
    while i < ls.len()
        invariant
            i <= ls.len(),
            key@ == usage_field(),
            scan_lines(lines(text@)) == scan_lines(views(ls@).skip(i as int)),
        decreases ls.len() - i,
    {
        let ghost rest = views(ls@).skip(i as int);
        assert(rest.drop_first() == views(ls@).skip(i + 1));
        assert(rest[0] == ls@[i as int]@);
        let w = split_words(&ls[i]);
        if w.len() != 2 {
            return Err(CgStatsError::ParseError { path: String::from_str(path) });
        }
        assert(views(w@)[1] == w@[1]@ && views(w@)[0] == w@[0]@);
        match parse_u64(&w[1]) {
            None => {
                return Err(CgStatsError::ParseIntError { path: String::from_str(path) });
            },
            Some(v) => {
                if chars_eq(&w[0], &key) {
                    return Ok(v);
                }
            },
        }
        i = i + 1;
    }
    Err(
        CgStatsError::MissingField {
            path: String::from_str(path),
            field: String::from_str("usage_usec"),
        },
    )
}

} // verus!
