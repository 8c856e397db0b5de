use wicker::{
    decimal_string, format_count, format_field, format_line, format_total, format_warning,
    is_stdin, Config, FileInfo, Totals, FIELD_WIDTH,
};

fn config(names: &[&str], lines: bool, words: bool, bytes: bool, chars: bool) -> Config {
    Config { files: names.iter().map(|n| n.to_string()).collect(), lines, words, bytes, chars }
}

#[test]
fn field_is_right_justified_in_eight() {
    assert_eq!(format_field(1, true), "       1");
    assert_eq!(format_field(0, true), "       0");
    assert_eq!(format_field(12, true), "      12");
    assert_eq!(format_field(1234567, true), " 1234567");
    assert_eq!(format_field(12345678, true), "12345678");
}

#[test]
fn field_widens_for_long_numbers() {
    assert_eq!(format_field(123456789, true), "123456789");
    assert_eq!(format_field(usize::MAX, true), format!("{}", usize::MAX));
    assert_eq!(format_count(u128::MAX, true), "340282366920938463463374607431768211455");
}

#[test]
fn field_not_shown_is_empty() {
    assert_eq!(format_field(1, false), "");
    assert_eq!(format_field(123456789, false), "");
    assert_eq!(format_count(0, false), "");
}

#[test]
fn field_is_at_least_eight_wide() {
    assert_eq!(FIELD_WIDTH, 8);
    let mut value: usize = 0;
    for _ in 0..19 {
        let field = format_field(value, true);
        assert!(field.len() >= FIELD_WIDTH);
        assert_eq!(field, format!("{:>8}", value));
        assert_eq!(field.trim_start().parse::<usize>(), Ok(value));
        value = value * 10 + 9;
    }
}

#[test]
fn decimal_numerals() {
    assert_eq!(decimal_string(0), "0");
    assert_eq!(decimal_string(7), "7");
    assert_eq!(decimal_string(10), "10");
    assert_eq!(decimal_string(1234567890), "1234567890");
    assert_eq!(decimal_string(1000000), "1000000");
    for value in [9u128, 99, 100, 101, 4096, 18446744073709551615, 18446744073709551616] {
        assert_eq!(decimal_string(value), value.to_string());
    }
}

#[test]
fn no_flags_means_lines_words_bytes() {
    let resolved = Config::new(vec!["a".to_string()], false, false, false, false);
    assert_eq!(resolved.files, vec!["a".to_string()]);
    assert!(resolved.lines);
    assert!(resolved.words);
    assert!(resolved.bytes);
    assert!(!resolved.chars);
}

#[test]
fn flags_given_are_kept() {
    for bits in 1u8..16 {
        let (l, w, b, c) = (bits & 1 != 0, bits & 2 != 0, bits & 4 != 0, bits & 8 != 0);
        let resolved = Config::new(vec!["-".to_string(), "x".to_string()], l, w, b, c);
        assert_eq!(resolved.files, vec!["-".to_string(), "x".to_string()]);
        assert_eq!((resolved.lines, resolved.words, resolved.bytes, resolved.chars), (l, w, b, c));
    }
}

#[test]
fn default_line_shows_lines_words_bytes() {
    let resolved = Config::new(vec!["fox.txt".to_string()], false, false, false, false);
    let info = FileInfo { num_lines: 1, num_words: 9, num_bytes: 48, num_chars: 45 };
    assert_eq!(format_line(&resolved, &info, "fox.txt"), "       1       9      48 fox.txt");
}

#[test]
fn stdin_is_the_hyphen() {
    assert!(is_stdin("-"));
    assert!(!is_stdin(""));
    assert!(!is_stdin("--"));
    assert!(!is_stdin("a"));
    assert!(!is_stdin("-a"));
    assert!(!is_stdin("\u{2010}"));
    assert!(!is_stdin("./-"));
}

#[test]
fn line_of_stdin_has_no_name() {
    let info = FileInfo { num_lines: 1, num_words: 2, num_bytes: 12, num_chars: 12 };
    let shown = config(&["-"], true, true, true, false);
    assert_eq!(format_line(&shown, &info, "-"), "       1       2      12");
}

#[test]
fn line_shows_the_selected_columns_in_order() {
    let info = FileInfo { num_lines: 1, num_words: 22, num_bytes: 333, num_chars: 4444 };
    assert_eq!(format_line(&config(&[], true, false, false, false), &info, "f"), "       1 f");
    assert_eq!(format_line(&config(&[], false, true, false, false), &info, "f"), "      22 f");
    assert_eq!(format_line(&config(&[], false, false, true, false), &info, "f"), "     333 f");
    assert_eq!(format_line(&config(&[], false, false, false, true), &info, "f"), "    4444 f");
    assert_eq!(
        format_line(&config(&[], true, false, false, true), &info, "f"),
        "       1    4444 f"
    );
    assert_eq!(
        format_line(&config(&[], true, true, true, true), &info, "a b.txt"),
        "       1      22     333    4444 a b.txt"
    );
    assert_eq!(format_line(&config(&[], false, false, false, false), &info, "f"), " f");
    assert_eq!(format_line(&config(&[], false, false, false, false), &info, "-"), "");
}

#[test]
fn bytes_and_characters_together_are_both_shown() {
    let info = FileInfo { num_lines: 1, num_words: 1, num_bytes: 3, num_chars: 2 };
    assert_eq!(
        format_line(&config(&[], false, false, true, true), &info, "e"),
        "       3       2 e"
    );
}

#[test]
fn long_counts_push_the_columns_apart() {
    let info = FileInfo { num_lines: 123456789, num_words: 1, num_bytes: 1234567890, num_chars: 0 };
    assert_eq!(
        format_line(&config(&[], true, true, true, false), &info, "big"),
        "123456789       11234567890 big"
    );
}

#[test]
fn total_line_is_labelled() {
    let total = Totals { lines: 3, words: 10, bytes: 50, chars: 48 };
    assert_eq!(
        format_total(&config(&[], true, true, true, false), &total),
        "       3      10      50 total"
    );
    assert_eq!(format_total(&config(&[], false, false, false, true), &total), "      48 total");
    let wide = Totals { lines: 0, words: 0, bytes: 36893488147419103230, chars: 0 };
    assert_eq!(
        format_total(&config(&[], false, false, true, false), &wide),
        "36893488147419103230 total"
    );
}

#[test]
fn warning_names_the_input() {
    assert_eq!(
        format_warning("nope.txt", "No such file or directory (os error 2)"),
        "nope.txt: No such file or directory (os error 2)"
    );
    assert_eq!(format_warning("", ""), ": ");
}
