use wc::config::Cli;
use wc::config::Config;
use wc::counter::count;
use wc::format::formatter;
use wc::format::total_formatter;
use wc::run;
use wc::RunError;

fn build_config(files: Vec<&str>, bytes: bool, lines: bool, words: bool, chars: bool) -> Config {
    let cli = Cli {
        files: files.into_iter().map(|f| f.to_string()).collect(),
        bytes,
        lines,
        words,
        chars,
    };
    Config::build(cli).unwrap()
}

#[test]
fn default_flags_single_file() {
    // 1 line, 2 words, 12 bytes, then the display name.
    let conf = build_config(vec!["hello.txt"], false, false, false, false);
    let inputs = vec![b"hello world\n".to_vec()];
    let out = run(&conf, &inputs).unwrap();
    assert_eq!(out, vec!["     1      2     12 hello.txt".to_string()]);
}

#[test]
fn empty_input_reports_zeroes() {
    let conf = build_config(vec!["empty.txt"], false, false, false, false);
    let inputs = vec![Vec::new()];
    let out = run(&conf, &inputs).unwrap();
    assert_eq!(out, vec!["     0      0      0 empty.txt".to_string()]);
}

#[test]
fn two_inputs_get_a_totals_line() {
    let conf = build_config(vec!["a.txt", "b.txt"], false, false, false, false);
    let inputs = vec![b"a\n".to_vec(), b"b\nc\n".to_vec()];
    let out = run(&conf, &inputs).unwrap();
    assert_eq!(out.len(), 3);
    assert_eq!(out[0], "     1      1      2 a.txt");
    assert_eq!(out[1], "     2      2      4 b.txt");
    assert_eq!(out[2], "     3      3      6 total");
}

#[test]
fn totals_equal_sum_of_per_file_values() {
    let conf = build_config(vec!["x", "y", "z"], false, false, false, false);
    let inputs = vec![
        b"one two\nthree\n".to_vec(),
        b"four\n".to_vec(),
        b"five six seven eight".to_vec(),
    ];
    let out = run(&conf, &inputs).unwrap();
    assert_eq!(out.len(), 4);
    let mut lines = 0usize;
    let mut words = 0usize;
    let mut bytes = 0usize;
    for data in &inputs {
        let info = count(&conf, data).unwrap();
        lines += info.total_lines;
        words += info.total_words;
        bytes += info.total_bytes;
    }
    let expected = format!("{:6} {:6} {:6} total", lines, words, bytes);
    assert_eq!(out[3], expected);
}

#[test]
fn totals_line_absent_for_single_input() {
    let conf = build_config(vec!["only"], false, false, false, false);
    let inputs = vec![b"some text\n".to_vec()];
    let out = run(&conf, &inputs).unwrap();
    assert_eq!(out.len(), 1);
    assert!(!out[0].ends_with("total"));
}

#[test]
fn words_flag_alone_on_piped_stdin_content() {
    // Standard input is displayed under the name `-`.
    let conf = build_config(vec!["-"], false, false, true, false);
    let inputs = vec![b"x y z\n".to_vec()];
    let out = run(&conf, &inputs).unwrap();
    assert_eq!(out, vec!["     3 -".to_string()]);
}

#[test]
fn chars_flag_counts_scalars_not_bytes() {
    // A three-byte scalar raises the character count by one only.
    let conf = build_config(vec!["u.txt"], false, false, false, true);
    let inputs = vec!["a\u{20ac}b\n".to_string().into_bytes()];
    let out = run(&conf, &inputs).unwrap();
    assert_eq!(out, vec!["     4 u.txt".to_string()]);
    let byte_conf = build_config(vec!["u.txt"], true, false, false, false);
    let inputs = vec!["a\u{20ac}b\n".to_string().into_bytes()];
    let out = run(&byte_conf, &inputs).unwrap();
    assert_eq!(out, vec!["     6 u.txt".to_string()]);
}

#[test]
fn explicit_flags_keep_fixed_order() {
    // Lines, words, bytes, characters, whatever order the flags came in.
    let conf = build_config(vec!["f"], true, true, true, true);
    let inputs = vec![b"ab cd\n".to_vec()];
    let out = run(&conf, &inputs).unwrap();
    assert_eq!(out, vec!["     1      2      6      6 f".to_string()]);
}

#[test]
fn running_twice_yields_identical_output() {
    let conf = build_config(vec!["a", "b"], false, false, false, false);
    let inputs = vec![b"static input\n".to_vec(), b"more\ntext\n".to_vec()];
    let first = run(&conf, &inputs).unwrap();
    let second = run(&conf, &inputs).unwrap();
    assert_eq!(first, second);
}

#[test]
fn run_reports_first_invalid_input() {
    let conf = build_config(vec!["good", "bad", "later"], false, false, false, false);
    let inputs = vec![b"fine\n".to_vec(), vec![0xff, 0xfe], b"unreached\n".to_vec()];
    let err = run(&conf, &inputs).unwrap_err();
    assert_eq!(err, RunError { input_index: 1 });
}

#[test]
fn run_accepts_binary_input_when_chars_inactive() {
    let conf = build_config(vec!["bin"], true, false, false, false);
    let inputs = vec![vec![0xff, 0x00, 0x80, 0x0a]];
    let out = run(&conf, &inputs).unwrap();
    assert_eq!(out, vec!["     4 bin".to_string()]);
}

#[test]
fn formatter_renders_one_tally() {
    let conf = build_config(vec![], false, false, false, false);
    let info = count(&conf, b"hello world\n").unwrap();
    let line = formatter(&info, &conf, "hello.txt");
    assert_eq!(line, "     1      2     12 hello.txt");
}

#[test]
fn formatter_pads_wide_counts_without_truncation() {
    let conf = build_config(vec![], true, false, false, false);
    let info = count(&conf, &vec![b'x'; 1234567]).unwrap();
    let line = formatter(&info, &conf, "big");
    assert_eq!(line, "1234567 big");
}

#[test]
fn total_formatter_uses_the_total_label() {
    let conf = build_config(vec![], false, false, false, false);
    let line = total_formatter(&conf, 3, 3, 6);
    assert_eq!(line, "     3      3      6 total");
    let words_only = build_config(vec![], false, false, true, false);
    let line = total_formatter(&words_only, 3, 7, 6);
    assert_eq!(line, "     7 total");
    // Characters are never accumulated, so a chars-only run has no
    // totals column at all.
    let chars_only = build_config(vec![], false, false, false, true);
    let line = total_formatter(&chars_only, 3, 7, 6);
    assert_eq!(line, "total");
}
