//! The counter: one pass over the bytes of a single input produces a
//! tally of bytes, lines, words and Unicode scalar values.
//!
//! The stream is modelled as a sequence of bytes. A physical line is a
//! maximal run of bytes up to and including a newline byte, or the final
//! unterminated run at end of stream; by the documented policy of this
//! library a non-empty unterminated final run counts as one more line. A
//! word is a maximal run of bytes that are not whitespace (space, tab,
//! newline, carriage return, form feed, vertical tab). A character is a
//! Unicode scalar value decoded from the bytes; invalid UTF-8 is a hard
//! error whenever characters are requested.

use vstd::prelude::*;
use vstd::utf8::*;

use crate::config::Config;

verus! {

/// The tally of one input: total bytes, lines, words and characters.
#[derive(Debug, Clone, Copy, PartialEq, Eq, Structural)]
pub struct FileInfo {
    /// The exact byte length of the input.
    pub total_bytes: usize,
    /// The number of Unicode scalar values, when requested, else zero.
    pub total_chars: usize,
    /// The number of whitespace-delimited words, when requested, else zero.
    pub total_words: usize,
    /// The number of physical lines.
    pub total_lines: usize,
}

/// Why counting one input failed.
#[derive(Debug, Clone, Copy, PartialEq, Eq, Structural)]
pub enum CountError {
    /// The input is not valid UTF-8, and character counting was requested.
    InvalidUtf8,
}

/// The number of newline bytes in `s`.
pub open spec fn newline_count(s: Seq<u8>) -> nat
    decreases s.len(),
{
    if s.len() == 0 {
        0
    } else {
        (if s[0] == 10 {
            1nat
        } else {
            0nat
        }) + newline_count(s.drop_first())
    }
}

/// The number of physical lines in `s`: one per newline byte, plus one
/// for a non-empty unterminated final run.
pub open spec fn line_count(s: Seq<u8>) -> nat {
    newline_count(s) + (if s.len() > 0 && s.last() != 10 {
        1nat
    } else {
        0nat
    })
}

/// Whitespace for word splitting: space, tab, newline, carriage return,
/// form feed, vertical tab.
pub open spec fn is_word_sep(b: u8) -> bool {
    b == 32 || b == 9 || b == 10 || b == 13 || b == 12 || b == 11
}

/// The number of maximal non-whitespace runs in `s`, given whether the
/// position just before `s` is a word boundary (the start of the stream,
/// or a whitespace byte).
pub open spec fn word_count_from(s: Seq<u8>, boundary: bool) -> nat
    decreases s.len(),
{
    if s.len() == 0 {
        0
    } else {
        (if boundary && !is_word_sep(s[0]) {
            1nat
        } else {
            0nat
        }) + word_count_from(s.drop_first(), is_word_sep(s[0]))
    }
}

/// The number of maximal non-whitespace runs in `s`.
pub open spec fn word_count(s: Seq<u8>) -> nat {
    word_count_from(s, true)
}

/// The number of Unicode scalar values encoded in `s`, meaningful when
/// `s` is valid UTF-8.
pub open spec fn char_count(s: Seq<u8>) -> nat {
    decode_utf8(s).len()
}

proof fn lemma_newline_count_le(s: Seq<u8>)
    ensures
        newline_count(s) <= s.len(),
    decreases s.len(),
{
    if s.len() > 0 {
        lemma_newline_count_le(s.drop_first());
    }
}

proof fn lemma_newline_count_last(s: Seq<u8>)
    requires
        s.len() > 0,
        s.last() != 10,
    ensures
        newline_count(s) < s.len(),
    decreases s.len(),
{
    if s.len() == 1 {
        assert(s[0] == s.last());
        assert(newline_count(s.drop_first()) == 0);
    } else {
        assert(s.drop_first().last() == s.last());
        lemma_newline_count_last(s.drop_first());
    }
}

/// Each physical line consumes at least one byte, so the line count
/// never exceeds the byte count.
pub proof fn lemma_line_count_le(s: Seq<u8>)
    ensures
        line_count(s) <= s.len(),
{
    lemma_newline_count_le(s);
    if s.len() > 0 && s.last() != 10 {
        lemma_newline_count_last(s);
    }
}

proof fn lemma_word_count_from_le(s: Seq<u8>, boundary: bool)
    ensures
        word_count_from(s, boundary) <= s.len(),
    decreases s.len(),
{
    if s.len() > 0 {
        lemma_word_count_from_le(s.drop_first(), is_word_sep(s[0]));
    }
}

/// Each word consumes at least one byte, so the word count never
/// exceeds the byte count.
pub proof fn lemma_word_count_le(s: Seq<u8>)
    ensures
        word_count(s) <= s.len(),
{
    lemma_word_count_from_le(s, true);
}

proof fn lemma_newline_count_concat(a: Seq<u8>, b: Seq<u8>)
    ensures
        newline_count(a + b) == newline_count(a) + newline_count(b),
    decreases a.len(),
{
    if a.len() == 0 {
        assert(a + b =~= b);
    } else {
        assert((a + b).drop_first() =~= a.drop_first() + b);
        assert((a + b)[0] == a[0]);
        lemma_newline_count_concat(a.drop_first(), b);
    }
}

/// Lines are delimited by newline bytes: cutting the stream right after
/// any newline splits the line count additively. With the documented
/// policy that a non-empty unterminated final run counts as one line,
/// the count is the number of newline-terminated lines plus one for
/// such a final run.
pub proof fn lemma_line_count_split(s: Seq<u8>, i: int)
    requires
        0 <= i < s.len(),
        s[i] == 10,
    ensures
        line_count(s) == line_count(s.take(i + 1)) + line_count(s.skip(i + 1)),
{
    assert(s =~= s.take(i + 1) + s.skip(i + 1));
    lemma_newline_count_concat(s.take(i + 1), s.skip(i + 1));
    assert(s.take(i + 1).last() == s[i]);
    if i + 1 < s.len() {
        assert(s.skip(i + 1).last() == s.last());
    }
}

proof fn lemma_word_count_from_concat(a: Seq<u8>, b: Seq<u8>, boundary: bool)
    ensures
        word_count_from(a + b, boundary) == word_count_from(a, boundary) + word_count_from(
            b,
            if a.len() == 0 {
                boundary
            } else {
                is_word_sep(a.last())
            },
        ),
    decreases a.len(),
{
    if a.len() == 0 {
        assert(a + b =~= b);
    } else {
        assert((a + b).drop_first() =~= a.drop_first() + b);
        assert((a + b)[0] == a[0]);
        if a.len() > 1 {
            assert(a.drop_first().last() == a.last());
        }
        lemma_word_count_from_concat(a.drop_first(), b, is_word_sep(a[0]));
    }
}

/// Words never span a whitespace byte, a newline in particular:
/// cutting the stream right after any whitespace byte splits the word
/// count additively, so counting words per physical line and summing
/// gives the word count of the whole stream, and a line of only
/// whitespace contributes zero.
pub proof fn lemma_word_count_split(s: Seq<u8>, i: int)
    requires
        0 <= i < s.len(),
        is_word_sep(s[i]),
    ensures
        word_count(s) == word_count(s.take(i + 1)) + word_count(s.skip(i + 1)),
{
    assert(s =~= s.take(i + 1) + s.skip(i + 1));
    lemma_word_count_from_concat(s.take(i + 1), s.skip(i + 1), true);
    assert(s.take(i + 1).last() == s[i]);
}

/// Pure seven-bit input is valid UTF-8 and decodes one character per
/// byte, so the character count equals the byte count.
pub proof fn lemma_ascii_char_count(s: Seq<u8>)
    requires
        forall|i: int| 0 <= i < s.len() ==> s[i] < 0x80,
    ensures
        valid_utf8(s),
        char_count(s) == s.len(),
    decreases s.len(),
{
    if s.len() > 0 {
        let b = s[0];
        assert(b < 0x80 ==> (b & 0x7f) <= 0x7f) by (bit_vector);
        assert(valid_first_scalar(s));
        assert(length_of_first_scalar(s) == 1);
        assert(pop_first_scalar(s) =~= s.drop_first());
        lemma_ascii_char_count(s.drop_first());
        assert(decode_utf8(s) == seq![decode_first_scalar(s) as char] + decode_utf8(
            pop_first_scalar(s),
        ));
    }
}

/// Counts the newline bytes of `data` and the final unterminated run,
/// giving the number of physical lines.
pub fn count_lines(data: &[u8]) -> (r: usize)
    ensures
        r == line_count(data@),
{
    let n = data.len();
    let mut i: usize = 0;
    let mut cnt: usize = 0;
    proof {
        assert(data@.skip(0) =~= data@);
    }
    while i < n
        invariant
            0 <= i <= n,
            n == data@.len(),
            cnt <= i,
            cnt + newline_count(data@.skip(i as int)) == newline_count(data@),
        decreases n - i,
    {
        proof {
            assert(data@.skip(i as int).drop_first() =~= data@.skip(i as int + 1));
            assert(data@.skip(i as int)[0] == data@[i as int]);
        }
        if data[i] == 10 {
            cnt = cnt + 1;
        }
        i = i + 1;
    }
    assert(data@.skip(n as int) =~= Seq::<u8>::empty());
    if n > 0 && data[n - 1] != 10 {
        proof {
            assert(data@.last() == data@[n - 1]);
            lemma_newline_count_last(data@);
        }
        cnt + 1
    } else {
        cnt
    }
}

/// Counts the maximal non-whitespace runs of `data`.
pub fn count_words(data: &[u8]) -> (r: usize)
    ensures
        r == word_count(data@),
{
    let n = data.len();
    let mut i: usize = 0;
    let mut cnt: usize = 0;
    let mut boundary = true;
    proof {
        assert(data@.skip(0) =~= data@);
    }
    while i < n
        invariant
            0 <= i <= n,
            n == data@.len(),
            cnt <= i,
            cnt + word_count_from(data@.skip(i as int), boundary) == word_count(data@),
        decreases n - i,
    {
        proof {
            assert(data@.skip(i as int).drop_first() =~= data@.skip(i as int + 1));
            assert(data@.skip(i as int)[0] == data@[i as int]);
        }
        let b = data[i];
        let sep = b == 32 || b == 9 || b == 10 || b == 13 || b == 12 || b == 11;
        if boundary && !sep {
            cnt = cnt + 1;
        }
        boundary = sep;
        i = i + 1;
    }
    assert(data@.skip(n as int) =~= Seq::<u8>::empty());
    cnt
}

/// Counts the Unicode scalar values encoded in `data`, or reports that
/// `data` is not valid UTF-8.
pub fn count_chars(data: &[u8]) -> (r: Option<usize>)
    ensures
        r is Some <==> valid_utf8(data@),
        r matches Some(c) ==> c == char_count(data@),
{
    let n = data.len();
    let mut i: usize = 0;
    let mut cnt: usize = 0;
    proof {
        assert(data@.skip(0) =~= data@);
    }
    while i < n
        invariant
            0 <= i <= n,
            n == data@.len(),
            cnt <= i,
            valid_utf8(data@) <==> valid_utf8(data@.skip(i as int)),
            valid_utf8(data@) ==> char_count(data@) == cnt + char_count(data@.skip(i as int)),
        decreases n - i,
    {
        let ghost t = data@.skip(i as int);
        proof {
            assert(t.len() == n - i);
            assert(t[0] == data@[i as int]);
        }
        let b0 = data[i];
        let w: usize;
        if b0 < 0x80 {
            proof {
                assert((b0 & 0x7f) <= 0x7f) by (bit_vector);
                assert(valid_first_scalar(t));
                assert(length_of_first_scalar(t) == 1);
            }
            w = 1;
        } else if 0xc0 <= b0 && b0 <= 0xdf {
            if n - i < 2 {
                assert(!valid_first_scalar(t));
                return None;
            }
            proof {
                assert(t[1] == data@[i as int + 1]);
            }
            let b1 = data[i + 1];
            if !(0x80 <= b1 && b1 <= 0xbf) {
                assert(!valid_first_scalar(t));
                return None;
            }
            let cp: u32 = (((b0 & 0x1f) as u32) << 6) | ((b1 & 0x3f) as u32);
            proof {
                assert(cp == codepoint_width_2(b0, b1));
            }
            if cp < 0x80 {
                assert(!valid_first_scalar(t));
                return None;
            }
            proof {
                assert(((((b0 & 0x1f) as u32) << 6) | ((b1 & 0x3f) as u32)) <= 0x7ff)
                    by (bit_vector);
                assert(valid_first_scalar(t));
                assert(length_of_first_scalar(t) == 2);
            }
            w = 2;
        } else if 0xe0 <= b0 && b0 <= 0xef {
            if n - i < 3 {
                assert(!valid_first_scalar(t));
                return None;
            }
            proof {
                assert(t[1] == data@[i as int + 1]);
                assert(t[2] == data@[i as int + 2]);
            }
            let b1 = data[i + 1];
            let b2 = data[i + 2];
            if !(0x80 <= b1 && b1 <= 0xbf) || !(0x80 <= b2 && b2 <= 0xbf) {
                assert(!valid_first_scalar(t));
                return None;
            }
            let cp: u32 = (((b0 & 0x0f) as u32) << 12) | (((b1 & 0x3f) as u32) << 6) | ((b2
                & 0x3f) as u32);
            proof {
                assert(cp == codepoint_width_3(b0, b1, b2));
            }
            if cp < 0x800 || (0xd800 <= cp && cp <= 0xdfff) {
                assert(!valid_first_scalar(t));
                return None;
            }
            proof {
                assert(valid_first_scalar(t));
                assert(length_of_first_scalar(t) == 3);
            }
            w = 3;
        } else if 0xf0 <= b0 && b0 <= 0xf7 {
            if n - i < 4 {
                assert(!valid_first_scalar(t));
                return None;
            }
            proof {
                assert(t[1] == data@[i as int + 1]);
                assert(t[2] == data@[i as int + 2]);
                assert(t[3] == data@[i as int + 3]);
            }
            let b1 = data[i + 1];
            let b2 = data[i + 2];
            let b3 = data[i + 3];
            if !(0x80 <= b1 && b1 <= 0xbf) || !(0x80 <= b2 && b2 <= 0xbf) || !(0x80 <= b3 && b3
                <= 0xbf) {
                assert(!valid_first_scalar(t));
                return None;
            }
            let cp: u32 = (((b0 & 0x07) as u32) << 18) | (((b1 & 0x3f) as u32) << 12) | (((b2
                & 0x3f) as u32) << 6) | ((b3 & 0x3f) as u32);
            proof {
                assert(cp == codepoint_width_4(b0, b1, b2, b3));
            }
            if cp < 0x10000 || cp > 0x10ffff {
                assert(!valid_first_scalar(t));
                return None;
            }
            proof {
                assert(valid_first_scalar(t));
                assert(length_of_first_scalar(t) == 4);
            }
            w = 4;
        } else {
            assert(!valid_first_scalar(t));
            return None;
        }
        proof {
            assert(pop_first_scalar(t) =~= data@.skip(i as int + w as int));
            if valid_utf8(data@) {
                assert(valid_utf8(t));
                assert(decode_utf8(t) == seq![decode_first_scalar(t) as char] + decode_utf8(
                    pop_first_scalar(t),
                ));
                assert(char_count(t) == 1 + char_count(pop_first_scalar(t)));
            } else {
                assert(!valid_utf8(t));
                assert(!valid_utf8(pop_first_scalar(t)));
            }
        }
        cnt = cnt + 1;
        i = i + w;
    }
    assert(data@.skip(n as int) =~= Seq::<u8>::empty());
    assert(valid_utf8(data@.skip(n as int)));
    assert(char_count(data@.skip(n as int)) == 0);
    Some(cnt)
}

/// Tallies one input. Bytes and lines are always counted; words and
/// characters only when the configuration asks for them, so that the
/// remaining fields stay zero. Counting fails exactly when characters
/// are requested and the input is not valid UTF-8.
pub fn count(conf: &Config, data: &[u8]) -> (r: Result<FileInfo, CountError>)
    ensures
        r is Ok <==> (!conf.chars_active() || valid_utf8(data@)),
        r matches Ok(info) ==> {
            &&& info.total_bytes == data@.len()
            &&& info.total_lines == line_count(data@)
            &&& info.total_words == if conf.words_active() {
                word_count(data@)
            } else {
                0nat
            }
            &&& info.total_chars == if conf.chars_active() {
                char_count(data@)
            } else {
                0nat
            }
        },
{
    let total_bytes = data.len();
    let total_lines = count_lines(data);
    let total_words = if conf.words || conf.all {
        count_words(data)
    } else {
        0
    };
    let total_chars = if conf.chars || conf.all {
        match count_chars(data) {
            Some(c) => c,
            None => {
                return Err(CountError::InvalidUtf8);
            },
        }
    } else {
        0
    };
    Ok(FileInfo { total_bytes, total_chars, total_words, total_lines })
}

} // verus!
