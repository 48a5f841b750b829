//! Rendering of tallies into report lines.
//!
//! Each enabled count category appears in the fixed order lines, words,
//! bytes, characters, right-aligned in decimal to a minimum field width
//! of six and followed by a single space; the display name of the input
//! closes the line. The totals line of a multi-input run uses the same
//! columns, restricted to lines, words and bytes, with the label
//! `total`.

use vstd::prelude::*;
use vstd::string::*;

use crate::config::Config;
use crate::counter::FileInfo;

verus! {

/// The decimal digit character for `d`.
pub open spec fn digit_char(d: nat) -> char
    recommends
        d < 10,
{
    if d == 0 {
        '0'
    } else if d == 1 {
        '1'
    } else if d == 2 {
        '2'
    } else if d == 3 {
        '3'
    } else if d == 4 {
        '4'
    } else if d == 5 {
        '5'
    } else if d == 6 {
        '6'
    } else if d == 7 {
        '7'
    } else if d == 8 {
        '8'
    } else {
        '9'
    }
}

/// The decimal representation of `n`, most significant digit first,
/// without sign or padding.
pub open spec fn dec_rep(n: nat) -> Seq<char>
    decreases n,
{
    if n < 10 {
        seq![digit_char(n)]
    } else {
        dec_rep(n / 10).push(digit_char(n % 10))
    }
}

/// A run of `k` spaces.
pub open spec fn spaces(k: nat) -> Seq<char>
    decreases k,
{
    if k == 0 {
        Seq::empty()
    } else {
        spaces((k - 1) as nat).push(' ')
    }
}

/// `n` in decimal, right-aligned to a minimum field width of six.
pub open spec fn padded6(n: nat) -> Seq<char> {
    if dec_rep(n).len() >= 6 {
        dec_rep(n)
    } else {
        spaces((6 - dec_rep(n).len()) as nat) + dec_rep(n)
    }
}

/// One output column: the padded count followed by a single space.
pub open spec fn field(n: nat) -> Seq<char> {
    padded6(n).push(' ')
}

/// The report line for one tally: the enabled categories in the fixed
/// order lines, words, bytes, characters, one column each, closed by
/// the display name of the input.
pub open spec fn line_for(
    conf: Config,
    lines: nat,
    words: nat,
    bytes: nat,
    chars: nat,
    name: Seq<char>,
) -> Seq<char> {
    (if conf.lines || conf.all {
        field(lines)
    } else {
        Seq::empty()
    }) + (if conf.words || conf.all {
        field(words)
    } else {
        Seq::empty()
    }) + (if conf.bytes || conf.all {
        field(bytes)
    } else {
        Seq::empty()
    }) + (if conf.chars {
        field(chars)
    } else {
        Seq::empty()
    }) + name
}

/// The totals line of a multi-input run: the same columns restricted to
/// lines, words and bytes, closed by the label `total`. Characters are
/// never accumulated across inputs, so no character column appears.
pub open spec fn totals_line_for(conf: Config, lines: nat, words: nat, bytes: nat) -> Seq<
    char,
> {
    (if conf.lines || conf.all {
        field(lines)
    } else {
        Seq::empty()
    }) + (if conf.words || conf.all {
        field(words)
    } else {
        Seq::empty()
    }) + (if conf.bytes || conf.all {
        field(bytes)
    } else {
        Seq::empty()
    }) + seq!['t', 'o', 't', 'a', 'l']
}

/// The one-character string for the decimal digit `d`.
fn digit_str(d: usize) -> (r: &'static str)
    requires
        d < 10,
    ensures
        r@ == seq![digit_char(d as nat)],
{
    let r: &'static str = if d == 0 {
        "0"
    } else if d == 1 {
        "1"
    } else if d == 2 {
        "2"
    } else if d == 3 {
        "3"
    } else if d == 4 {
        "4"
    } else if d == 5 {
        "5"
    } else if d == 6 {
        "6"
    } else if d == 7 {
        "7"
    } else if d == 8 {
        "8"
    } else {
        "9"
    };
    proof {
        reveal_strlit("0");
        reveal_strlit("1");
        reveal_strlit("2");
        reveal_strlit("3");
        reveal_strlit("4");
        reveal_strlit("5");
        reveal_strlit("6");
        reveal_strlit("7");
        reveal_strlit("8");
        reveal_strlit("9");
        assert(r@ =~= seq![digit_char(d as nat)]);
    }
    r
}

/// Renders `n` in decimal, most significant digit first.
fn fmt_digits(n: usize) -> (s: String)
    ensures
        s@ == dec_rep(n as nat),
    decreases n,
{
    if n < 10 {
        digit_str(n).to_owned()
    } else {
        let mut s = fmt_digits(n / 10);
        s.append(digit_str(n % 10));
        proof {
            assert(s@ =~= dec_rep(n as nat));
        }
        s
    }
}

/// Renders `n` in decimal, right-aligned to a minimum width of six.
fn fmt_count(n: usize) -> (s: String)
    ensures
        s@ == padded6(n as nat),
{
    let digits = fmt_digits(n);
    let len = digits.as_str().unicode_len();
    let pad: usize = if len >= 6 {
        0
    } else {
        6 - len
    };
    let mut s = String::new();
    let mut k: usize = 0;
    while k < pad
        invariant
            k <= pad,
            s@ == spaces(k as nat),
        decreases pad - k,
    {
        s.append(" ");
        proof {
            reveal_strlit(" ");
            assert(s@ =~= spaces((k + 1) as nat));
        }
        k = k + 1;
    }
    s.append(digits.as_str());
    proof {
        assert(s@ =~= padded6(n as nat));
    }
    s
}

/// Renders the report line for one tally and its display name.
pub fn formatter(results: &FileInfo, conf: &Config, filename: &str) -> (line: String)
    ensures
        line@ == line_for(
            *conf,
            results.total_lines as nat,
            results.total_words as nat,
            results.total_bytes as nat,
            results.total_chars as nat,
            filename@,
        ),
{
    proof {
        reveal_strlit(" ");
    }
    let mut line = String::new();
    if conf.lines || conf.all {
        line.append(fmt_count(results.total_lines).as_str());
        line.append(" ");
    }
    if conf.words || conf.all {
        line.append(fmt_count(results.total_words).as_str());
        line.append(" ");
    }
    if conf.bytes || conf.all {
        line.append(fmt_count(results.total_bytes).as_str());
        line.append(" ");
    }
    if conf.chars {
        line.append(fmt_count(results.total_chars).as_str());
        line.append(" ");
    }
    line.append(filename);
    proof {
        assert(line@ =~= line_for(
            *conf,
            results.total_lines as nat,
            results.total_words as nat,
            results.total_bytes as nat,
            results.total_chars as nat,
            filename@,
        ));
    }
    line
}

/// Renders the totals line of a multi-input run.
pub fn total_formatter(conf: &Config, total_lines: usize, total_words: usize, total_bytes: usize) -> (line:
    String)
    ensures
        line@ == totals_line_for(
            *conf,
            total_lines as nat,
            total_words as nat,
            total_bytes as nat,
        ),
{
    proof {
        reveal_strlit(" ");
        reveal_strlit("total");
    }
    let mut line = String::new();
    if conf.lines || conf.all {
        line.append(fmt_count(total_lines).as_str());
        line.append(" ");
    }
    if conf.words || conf.all {
        line.append(fmt_count(total_words).as_str());
        line.append(" ");
    }
    if conf.bytes || conf.all {
        line.append(fmt_count(total_bytes).as_str());
        line.append(" ");
    }
    line.append("total");
    proof {
        assert(line@ =~= totals_line_for(
            *conf,
            total_lines as nat,
            total_words as nat,
            total_bytes as nat,
        ));
    }
    line
}

} // verus!
