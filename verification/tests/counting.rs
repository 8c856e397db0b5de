use std::io::BufRead;

use wicker::{count, is_whitespace, CountError, FileInfo};

fn info(num_lines: usize, num_words: usize, num_bytes: usize, num_chars: usize) -> FileInfo {
    FileInfo { num_lines, num_words, num_bytes, num_chars }
}

/// Counts line by line with std, as a reader of lines would.
fn count_by_lines(mut content: &[u8]) -> Option<FileInfo> {
    let mut total = info(0, 0, 0, 0);
    let mut line = String::new();
    loop {
        let read = content.read_line(&mut line).ok()?;
        if read == 0 {
            return Some(total);
        }
        total.num_bytes += read;
        total.num_lines += 1;
        total.num_words += line.split_whitespace().count();
        total.num_chars += line.chars().count();
        line.clear();
    }
}

#[test]
fn empty_input_counts_nothing() {
    assert_eq!(count(b""), Ok(info(0, 0, 0, 0)));
}

#[test]
fn hello_world_line() {
    assert_eq!(count(b"hello world\n"), Ok(info(1, 2, 12, 12)));
}

#[test]
fn two_byte_character_and_line_feed() {
    assert_eq!(count("\u{e9}\n".as_bytes()), Ok(info(1, 1, 3, 2)));
}

#[test]
fn three_byte_character_and_line_feed() {
    assert_eq!(count("\u{20ac}\n".as_bytes()), Ok(info(1, 1, 4, 2)));
}

#[test]
fn four_byte_character_and_line_feed() {
    assert_eq!(count("\u{1f600}\n".as_bytes()), Ok(info(1, 1, 5, 2)));
}

#[test]
fn bytes_exceed_characters_by_the_extra_width() {
    for c in ['\u{e9}', '\u{20ac}', '\u{1f600}'] {
        let text = format!("{}\n", c);
        let counted = count(text.as_bytes()).unwrap();
        assert_eq!(counted.num_lines, 1);
        assert_eq!(counted.num_chars, 2);
        assert_eq!(counted.num_bytes - counted.num_chars, c.len_utf8() - 1);
    }
}

#[test]
fn counting_twice_gives_the_same() {
    let first: Vec<u8> = "one two\nthree \u{e9}\u{20ac} four\n\nfive".as_bytes().to_vec();
    let second: Vec<u8> = first.clone();
    assert_eq!(count(&first), count(&second));
    assert_eq!(count(&first), count(&first));
    assert_eq!(count(&first), Ok(info(4, 6, 30, 27)));
}

#[test]
fn unterminated_last_line_is_a_line() {
    assert_eq!(count(b"a\nb"), Ok(info(2, 2, 3, 3)));
    assert_eq!(count(b"a"), Ok(info(1, 1, 1, 1)));
}

#[test]
fn line_feeds_alone() {
    assert_eq!(count(b"\n"), Ok(info(1, 0, 1, 1)));
    assert_eq!(count(b"\n\n\n"), Ok(info(3, 0, 3, 3)));
}

#[test]
fn runs_of_whitespace_separate_words() {
    assert_eq!(count(b"  hello   world  \n\t\n"), Ok(info(2, 2, 20, 20)));
    assert_eq!(count(b" \t \r\n"), Ok(info(1, 0, 5, 5)));
    assert_eq!(count(b"a\tb\x0bc\x0cd\re f\n"), Ok(info(1, 6, 12, 12)));
}

#[test]
fn words_do_not_run_across_lines() {
    assert_eq!(count(b"ab\ncd"), Ok(info(2, 2, 5, 5)));
}

#[test]
fn wide_spaces_separate_words() {
    assert_eq!(count("a\u{a0}b".as_bytes()), Ok(info(1, 2, 4, 3)));
    assert_eq!(count("a\u{3000}b\u{2003}c\u{85}d".as_bytes()), Ok(info(1, 4, 12, 7)));
    assert_eq!(count("a\u{200b}b".as_bytes()), Ok(info(1, 1, 5, 3)));
}

#[test]
fn invalid_bytes_are_an_error() {
    assert_eq!(count(b"\xff\n"), Err(CountError::InvalidText));
    assert_eq!(count(b"fine\nnot \xc3\n"), Err(CountError::InvalidText));
    assert_eq!(count(b"\xc3"), Err(CountError::InvalidText));
    assert_eq!(count(b"\xed\xa0\x80"), Err(CountError::InvalidText));
    assert_eq!(count(b"\xc0\x80"), Err(CountError::InvalidText));
    assert_eq!(count(b"\xf4\x90\x80\x80"), Err(CountError::InvalidText));
    assert_eq!(count(b"\x80"), Err(CountError::InvalidText));
}

#[test]
fn bytes_are_decoded_not_taken_one_by_one() {
    let counted = count(&[0xe2, 0x82, 0xac]).unwrap();
    assert_eq!(counted, info(1, 1, 3, 1));
}

#[test]
fn agrees_with_counting_line_by_line() {
    let inputs: [&[u8]; 10] = [
        b"",
        b"\n",
        b"one\n",
        b"one",
        b"one two\nthree\n",
        b"  lead and trail  \n\n\n  x",
        "gr\u{fc}\u{df}e \u{4e16}\u{754c}\n\u{1f600} ok\n".as_bytes(),
        b"tab\tseparated\tvalues\r\nsecond\r\n",
        b"bad \xff byte\n",
        b"good\nbad \xe2\x82\n",
    ];
    for input in inputs {
        assert_eq!(count(input).ok(), count_by_lines(input));
    }
}

#[test]
fn line_by_line_counts_add_up() {
    let head = "first line \u{e9}\n";
    let tail = "second  line\nthird";
    let whole = format!("{}{}", head, tail);
    let h = count(head.as_bytes()).unwrap();
    let t = count(tail.as_bytes()).unwrap();
    let w = count(whole.as_bytes()).unwrap();
    assert_eq!(w.num_lines, h.num_lines + t.num_lines);
    assert_eq!(w.num_words, h.num_words + t.num_words);
    assert_eq!(w.num_bytes, h.num_bytes + t.num_bytes);
    assert_eq!(w.num_chars, h.num_chars + t.num_chars);
    assert_eq!(w, info(3, 6, 32, 31));
}

#[test]
fn line_by_line_failure_is_failure_of_the_whole() {
    let good: &[u8] = b"good line\n";
    let bad: &[u8] = b"bad \xe2\x82 line\n";
    assert!(count(good).is_ok());
    assert_eq!(count(bad), Err(CountError::InvalidText));
    assert_eq!(count(&[good, bad].concat()), Err(CountError::InvalidText));
    assert_eq!(count(&[bad, good].concat()), Err(CountError::InvalidText));
    assert_eq!(count(&[good, good].concat()), Ok(info(2, 4, 20, 20)));
}

#[test]
fn counts_are_ordered() {
    let counted = count("a b c \u{20ac}\n\n".as_bytes()).unwrap();
    assert!(counted.num_lines <= counted.num_chars);
    assert!(counted.num_words <= counted.num_chars);
    assert!(counted.num_chars <= counted.num_bytes);
    assert_eq!(counted, info(2, 4, 11, 9));
}

#[test]
fn whitespace_is_what_std_calls_whitespace() {
    let mut c = '\0';
    loop {
        assert_eq!(is_whitespace(c), c.is_whitespace(), "{:?}", c);
        match char::from_u32(c as u32 + 1).or_else(|| char::from_u32(0xe000)) {
            Some(next) if c != char::MAX => c = next,
            _ => break,
        }
    }
}

#[test]
fn whitespace_examples() {
    for c in [' ', '\t', '\n', '\r', '\u{b}', '\u{c}', '\u{85}', '\u{a0}', '\u{1680}', '\u{2000}',
        '\u{200a}', '\u{2028}', '\u{2029}', '\u{202f}', '\u{205f}', '\u{3000}']
    {
        assert!(is_whitespace(c), "{:?}", c);
    }
    for c in ['a', '0', '-', '\0', '\u{8}', '\u{e}', '\u{1f}', '\u{200b}', '\u{180e}', '\u{feff}'] {
        assert!(!is_whitespace(c), "{:?}", c);
    }
}
