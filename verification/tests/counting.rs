use wc::config::Cli;
use wc::config::Config;
use wc::counter::count;
use wc::counter::count_chars;
use wc::counter::count_lines;
use wc::counter::count_words;
use wc::CountError;

fn all_mode_config() -> Config {
    let cli = Cli {
        files: Vec::new(),
        bytes: false,
        lines: false,
        words: false,
        chars: false,
    };
    Config::build(cli).unwrap()
}

fn chars_config() -> Config {
    let cli = Cli {
        files: Vec::new(),
        bytes: false,
        lines: false,
        words: false,
        chars: true,
    };
    Config::build(cli).unwrap()
}

fn bytes_config() -> Config {
    let cli = Cli {
        files: Vec::new(),
        bytes: true,
        lines: false,
        words: false,
        chars: false,
    };
    Config::build(cli).unwrap()
}

#[test]
fn bytes_equal_exact_length() {
    let conf = all_mode_config();
    let info = count(&conf, b"hello world\n").unwrap();
    assert_eq!(info.total_bytes, 12);
    let info = count(&conf, b"").unwrap();
    assert_eq!(info.total_bytes, 0);
}

#[test]
fn bytes_counted_on_arbitrary_binary_data() {
    let conf = bytes_config();
    let info = count(&conf, &[0xff, 0xfe, 0x00, 0x80]).unwrap();
    assert_eq!(info.total_bytes, 4);
    // Bytes and lines are always computed; the unterminated run is a line.
    assert_eq!(info.total_lines, 1);
    assert_eq!(info.total_words, 0);
    assert_eq!(info.total_chars, 0);
}

#[test]
fn lines_count_terminated_lines() {
    assert_eq!(count_lines(b"a\nb\nc\n"), 3);
    assert_eq!(count_lines(b"\n\n"), 2);
    assert_eq!(count_lines(b""), 0);
}

#[test]
fn lines_count_unterminated_final_line() {
    assert_eq!(count_lines(b"a\nb"), 2);
    assert_eq!(count_lines(b"abc"), 1);
}

#[test]
fn words_are_counted_per_line_and_summed() {
    assert_eq!(count_words(b"hello world\n"), 2);
    assert_eq!(count_words(b" a b \n c\nd"), 4);
    assert_eq!(count_words(b""), 0);
}

#[test]
fn whitespace_only_line_contributes_no_words() {
    assert_eq!(count_words(b" \t \n"), 0);
    assert_eq!(count_words(b"\x0b\x0c\r\n"), 0);
}

#[test]
fn all_whitespace_kinds_separate_words() {
    assert_eq!(count_words(b"a b\tc\rd\x0ce\x0bf\ng"), 7);
}

#[test]
fn chars_equal_bytes_for_ascii() {
    let data = b"plain seven-bit text\nwith two lines\n";
    assert_eq!(count_chars(data), Some(data.len()));
}

#[test]
fn multibyte_scalar_counts_once() {
    // One three-byte scalar: chars rise by one, bytes by three.
    let data = "a\u{20ac}b".as_bytes();
    assert_eq!(data.len(), 5);
    assert_eq!(count_chars(data), Some(3));
    let two_byte = "\u{e9}".as_bytes();
    assert_eq!(two_byte.len(), 2);
    assert_eq!(count_chars(two_byte), Some(1));
    let four_byte = "\u{1f600}".as_bytes();
    assert_eq!(four_byte.len(), 4);
    assert_eq!(count_chars(four_byte), Some(1));
}

#[test]
fn invalid_utf8_is_rejected_when_chars_requested() {
    assert_eq!(count_chars(&[0xff]), None);
    assert_eq!(count_chars(&[0xc3]), None);
    assert_eq!(count_chars(&[0xc3, 0x28]), None);
    assert_eq!(count_chars(&[0xc0, 0x80]), None);
    assert_eq!(count_chars(&[0xed, 0xa0, 0x80]), None);
    assert_eq!(count_chars(&[0xf5, 0x80, 0x80, 0x80]), None);
    let conf = chars_config();
    assert_eq!(count(&conf, &[0xff, 0xfe]), Err(CountError::InvalidUtf8));
    let all = all_mode_config();
    assert_eq!(count(&all, &[0xff, 0xfe]), Err(CountError::InvalidUtf8));
}

#[test]
fn count_fills_only_requested_fields() {
    let conf = bytes_config();
    let info = count(&conf, b"one two three\n").unwrap();
    assert_eq!(info.total_bytes, 14);
    assert_eq!(info.total_lines, 1);
    assert_eq!(info.total_words, 0);
    assert_eq!(info.total_chars, 0);
    let all = all_mode_config();
    let info = count(&all, b"one two three\n").unwrap();
    assert_eq!(info.total_words, 3);
    assert_eq!(info.total_chars, 14);
}

#[test]
fn word_count_splits_at_line_ends() {
    // Counting per physical line and summing gives the stream's count.
    let whole = count_words(b"a b\nc d\ne");
    let per_line = count_words(b"a b\n") + count_words(b"c d\n") + count_words(b"e");
    assert_eq!(whole, 5);
    assert_eq!(whole, per_line);
}

#[test]
fn build_derives_all_mode() {
    let conf = all_mode_config();
    assert!(conf.all);
    let conf = bytes_config();
    assert!(!conf.all);
    assert!(conf.bytes);
}
