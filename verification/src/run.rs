//! The driver of a run: every input is tallied in order, one report
//! line is produced per input, and a multi-input run closes with a
//! totals line that accumulates lines, words and bytes (characters are
//! never accumulated).
//!
//! The inputs are handed over as byte vectors, one per configured path;
//! reading files or standard input, and printing the returned lines, is
//! the caller's concern.

use vstd::prelude::*;
use vstd::utf8::valid_utf8;

use crate::config::Config;
use crate::counter::char_count;
use crate::counter::count;
use crate::counter::lemma_line_count_le;
use crate::counter::lemma_word_count_le;
use crate::counter::line_count;
use crate::counter::word_count;
use crate::format::formatter;
use crate::format::line_for;
use crate::format::total_formatter;
use crate::format::totals_line_for;

verus! {

/// Why a run failed: the input at this index is not valid UTF-8 while
/// character counting was requested.
#[derive(Debug, Clone, Copy, PartialEq, Eq, Structural)]
pub struct RunError {
    /// The position, in processing order, of the offending input.
    pub input_index: usize,
}

/// The byte count of a run: the byte lengths of all inputs, summed.
pub open spec fn sum_bytes(ins: Seq<Seq<u8>>) -> nat
    decreases ins.len(),
{
    if ins.len() == 0 {
        0
    } else {
        sum_bytes(ins.drop_last()) + ins.last().len()
    }
}

/// The line count of a run: the line counts of all inputs, summed.
pub open spec fn sum_lines(ins: Seq<Seq<u8>>) -> nat
    decreases ins.len(),
{
    if ins.len() == 0 {
        0
    } else {
        sum_lines(ins.drop_last()) + line_count(ins.last())
    }
}

/// The word count of a run: the word counts of all inputs, summed.
pub open spec fn sum_words(ins: Seq<Seq<u8>>) -> nat
    decreases ins.len(),
{
    if ins.len() == 0 {
        0
    } else {
        sum_words(ins.drop_last()) + word_count(ins.last())
    }
}

/// The report line of one input: its tallied counts (words and
/// characters zero unless requested) rendered with its display name.
pub open spec fn report_line(conf: Config, data: Seq<u8>, name: Seq<char>) -> Seq<char> {
    line_for(
        conf,
        line_count(data),
        if conf.words_active() {
            word_count(data)
        } else {
            0nat
        },
        data.len(),
        if conf.chars_active() {
            char_count(data)
        } else {
            0nat
        },
        name,
    )
}

/// The totals line of a run over these inputs.
pub open spec fn report_totals_line(conf: Config, ins: Seq<Seq<u8>>) -> Seq<char> {
    totals_line_for(
        conf,
        sum_lines(ins),
        if conf.words_active() {
            sum_words(ins)
        } else {
            0nat
        },
        sum_bytes(ins),
    )
}

/// The full report of a successful run: one line per input, in input
/// order, and a totals line when more than one input was given. The
/// report is a function of the configuration, the input bytes and the
/// display names alone, so two runs over the same arguments render
/// identical output.
pub open spec fn report(conf: Config, ins: Seq<Seq<u8>>, names: Seq<Seq<char>>) -> Seq<
    Seq<char>,
> {
    Seq::new(ins.len(), |j: int| report_line(conf, ins[j], names[j])) + if ins.len() > 1 {
        seq![report_totals_line(conf, ins)]
    } else {
        Seq::empty()
    }
}

proof fn lemma_sum_bytes_take_le(ins: Seq<Seq<u8>>, k: int)
    requires
        0 <= k <= ins.len(),
    ensures
        sum_bytes(ins.take(k)) <= sum_bytes(ins),
    decreases ins.len(),
{
    if k == ins.len() {
        assert(ins.take(k) =~= ins);
    } else {
        assert(ins.drop_last().take(k) =~= ins.take(k));
        lemma_sum_bytes_take_le(ins.drop_last(), k);
    }
}

proof fn lemma_sum_lines_le_bytes(ins: Seq<Seq<u8>>)
    ensures
        sum_lines(ins) <= sum_bytes(ins),
    decreases ins.len(),
{
    if ins.len() > 0 {
        lemma_sum_lines_le_bytes(ins.drop_last());
        lemma_line_count_le(ins.last());
    }
}

proof fn lemma_sum_words_le_bytes(ins: Seq<Seq<u8>>)
    ensures
        sum_words(ins) <= sum_bytes(ins),
    decreases ins.len(),
{
    if ins.len() > 0 {
        lemma_sum_words_le_bytes(ins.drop_last());
        lemma_word_count_le(ins.last());
    }
}

/// Tallies every input in order and renders the report: one line per
/// input, and, when more than one input was given, a totals line. When
/// character counting is requested and some input is not valid UTF-8,
/// nothing is returned and the error names the first offending input.
pub fn run(conf: &Config, inputs: &Vec<Vec<u8>>) -> (r: Result<Vec<String>, RunError>)
    requires
        inputs@.len() == conf.files_paths@.len(),
        sum_bytes(inputs.deep_view()) <= usize::MAX,
    ensures
        r is Ok <==> (!conf.chars_active() || forall|j: int|
            0 <= j < inputs@.len() ==> valid_utf8(inputs.deep_view()[j])),
        r matches Ok(lines) ==> lines.deep_view() == report(
            *conf,
            inputs.deep_view(),
            conf.files_paths.deep_view(),
        ),
        r matches Ok(lines) ==> {
            &&& lines@.len() == inputs@.len() + if inputs@.len() > 1 {
                1int
            } else {
                0int
            }
            &&& forall|j: int|
                0 <= j < inputs@.len() ==> lines@[j]@ == report_line(
                    *conf,
                    inputs.deep_view()[j],
                    conf.files_paths.deep_view()[j],
                )
            &&& inputs@.len() > 1 ==> lines@.last()@ == report_totals_line(
                *conf,
                inputs.deep_view(),
            )
        },
        r matches Err(e) ==> {
            &&& conf.chars_active()
            &&& e.input_index < inputs@.len()
            &&& !valid_utf8(inputs.deep_view()[e.input_index as int])
            &&& forall|j: int| 0 <= j < e.input_index ==> valid_utf8(inputs.deep_view()[j])
        },
{
    let ghost dv = inputs.deep_view();
    let ghost names = conf.files_paths.deep_view();
    let n = inputs.len();
    let mut out: Vec<String> = Vec::new();
    let mut global_total_bytes: usize = 0;
    let mut global_total_words: usize = 0;
    let mut global_total_lines: usize = 0;
    let mut i: usize = 0;
    proof {
        assert(dv.take(0) =~= Seq::<Seq<u8>>::empty());
    }
    while i < n
        invariant
            0 <= i <= n,
            n == inputs@.len(),
            inputs@.len() == conf.files_paths@.len(),
            dv == inputs.deep_view(),
            names == conf.files_paths.deep_view(),
            sum_bytes(dv) <= usize::MAX,
            out@.len() == i,
            forall|j: int| 0 <= j < i ==> out@[j]@ == report_line(*conf, dv[j], names[j]),
            conf.chars_active() ==> forall|j: int| 0 <= j < i ==> valid_utf8(dv[j]),
            global_total_bytes == sum_bytes(dv.take(i as int)),
            global_total_lines == sum_lines(dv.take(i as int)),
            global_total_words == if conf.words_active() {
                sum_words(dv.take(i as int))
            } else {
                0nat
            },
        decreases n - i,
    {
        proof {
            assert(dv[i as int] == inputs@[i as int]@);
            assert(names[i as int] == conf.files_paths@[i as int]@);
        }
        let results = match count(conf, inputs[i].as_slice()) {
            Ok(results) => results,
            Err(_) => {
                return Err(RunError { input_index: i });
            },
        };
        proof {
            let taken = dv.take(i as int + 1);
            assert(taken.drop_last() =~= dv.take(i as int));
            assert(taken.last() == dv[i as int]);
            lemma_sum_bytes_take_le(dv, i as int + 1);
            lemma_line_count_le(dv[i as int]);
            lemma_word_count_le(dv[i as int]);
            lemma_sum_lines_le_bytes(dv.take(i as int));
            lemma_sum_words_le_bytes(dv.take(i as int));
        }
        global_total_bytes = global_total_bytes + results.total_bytes;
        global_total_words = global_total_words + results.total_words;
        global_total_lines = global_total_lines + results.total_lines;
        let line = formatter(&results, conf, conf.files_paths[i].as_str());
        out.push(line);
        i = i + 1;
    }
    proof {
        assert(dv.take(n as int) =~= dv);
    }
    if n > 1 {
        let totals = total_formatter(
            conf,
            global_total_lines,
            global_total_words,
            global_total_bytes,
        );
        out.push(totals);
    }
    proof {
        assert(out.deep_view() =~= report(*conf, dv, names));
    }
    Ok(out)
}

} // verus!
