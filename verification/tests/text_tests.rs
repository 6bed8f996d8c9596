use portfolio_tracker::digits::{i64_text, is_digit_char, parse_i64, push_fixed_digits, push_nat_text};
use portfolio_tracker::text::{
    chars_of, extend_chars, is_ascii_space_char, is_space_char, reads, same_chars, slice_of,
    split_on, string_of, trimmed, upper_char, uppercased, words_of,
};

fn chars(s: &str) -> Vec<char> {
    s.chars().collect()
}

fn texts(parts: Vec<Vec<char>>) -> Vec<String> {
    parts.iter().map(|p| p.iter().collect()).collect()
}

#[test]
fn test_chars_and_strings() {
    assert_eq!(chars_of("aé₿"), vec!['a', 'é', '₿']);
    assert_eq!(chars_of(""), Vec::<char>::new());
    assert_eq!(string_of(&chars("aé₿")), "aé₿");
    assert_eq!(string_of(&Vec::new()), "");
    assert!(same_chars(&chars("abc"), &chars("abc")));
    assert!(!same_chars(&chars("abc"), &chars("abd")));
    assert!(!same_chars(&chars("abc"), &chars("ab")));
    assert!(same_chars(&chars(""), &chars("")));
    assert!(reads(&chars("USD"), "USD"));
    assert!(!reads(&chars("USD"), "usd"));
    assert_eq!(slice_of(&chars("abcdef"), 2, 4), chars("cd"));
    assert_eq!(slice_of(&chars("abcdef"), 3, 3), chars(""));
    assert_eq!(slice_of(&chars("abcdef"), 0, 6), chars("abcdef"));
    let mut out = chars("ab");
    extend_chars(&mut out, &chars("cd"));
    assert_eq!(out, chars("abcd"));
}

#[test]
fn test_white_space_and_case() {
    for c in [' ', '\t', '\n', '\u{b}', '\u{c}', '\r', '\u{85}', '\u{a0}', '\u{1680}', '\u{2000}',
        '\u{200a}', '\u{2028}', '\u{2029}', '\u{202f}', '\u{205f}', '\u{3000}']
    {
        assert!(is_space_char(c), "{:?}", c);
        assert_eq!(is_space_char(c), c.is_whitespace());
    }
    for c in ['a', '0', '\u{8}', '\u{e}', '\u{200b}', '\u{180e}', '\u{feff}', '_'] {
        assert!(!is_space_char(c), "{:?}", c);
        assert_eq!(is_space_char(c), c.is_whitespace());
    }
    for c in [' ', '\t', '\n', '\u{c}', '\r'] {
        assert!(is_ascii_space_char(c));
    }
    for c in ['\u{b}', '\u{a0}', 'x'] {
        assert!(!is_ascii_space_char(c));
    }
    for c in ['a', 'm', 'z', 'A', 'Z', '0', '`', '{', 'é', 'ß', '₿'] {
        assert_eq!(upper_char(c), c.to_ascii_uppercase());
    }
    assert_eq!(trimmed(&chars(" \t a b \n")), chars("a b"));
    assert_eq!(trimmed(&chars("   ")), chars(""));
    assert_eq!(trimmed(&chars("")), chars(""));
    assert_eq!(trimmed(&chars("x")), chars("x"));
    assert_eq!(uppercased(&chars("aZ09é")), chars("AZ09é"));
}

#[test]
fn test_split_gives_one_part_more_than_separators() {
    assert_eq!(texts(split_on(&chars("a,b,c"), ',')), vec!["a", "b", "c"]);
    assert_eq!(texts(split_on(&chars(""), ',')), vec![""]);
    assert_eq!(texts(split_on(&chars(","), ',')), vec!["", ""]);
    assert_eq!(texts(split_on(&chars("a,,b,"), ',')), vec!["a", "", "b", ""]);
    assert_eq!(texts(split_on(&chars("abc"), '/')), vec!["abc"]);
    for text in ["", "/", "a/b", "//a//", "BTC/ETH/USD"] {
        let expected: Vec<String> = text.split('/').map(|s| s.to_string()).collect();
        assert_eq!(texts(split_on(&chars(text), '/')), expected);
    }
}

#[test]
fn test_words_are_the_runs_between_white_space() {
    for text in ["", "  ", "a", " a  bc\td\n", "0.01 btc for 100.0 usd", "\u{a0}x\u{b}y z"] {
        let expected: Vec<String> = text.split_ascii_whitespace().map(|s| s.to_string()).collect();
        assert_eq!(texts(words_of(&chars(text))), expected);
    }
}

#[test]
fn test_parse_i64_reads_what_integers_are_written_as() {
    for text in ["0", "-0", "+0", "7", "-7", "+7", "0042", "9223372036854775807",
        "-9223372036854775808", "9223372036854775808", "-9223372036854775809",
        "123456789012345678901234567890", "", "+", "-", "--1", "1-", "1 ", " 1", "1_000", "1.0", "a"]
    {
        assert_eq!(parse_i64(&chars(text)), text.parse::<i64>().ok(), "{:?}", text);
    }
    assert!(is_digit_char('0') && is_digit_char('9'));
    assert!(!is_digit_char('/') && !is_digit_char(':') && !is_digit_char('٣'));
}

#[test]
fn test_integers_are_written_in_decimal_notation() {
    for n in [0, 1, -1, 9, 10, -10, 1704883200, i64::MAX, i64::MIN] {
        let text: String = i64_text(n).iter().collect();
        assert_eq!(text, n.to_string());
        assert_eq!(parse_i64(&i64_text(n)), Some(n));
    }
    let mut out = chars("x");
    push_nat_text(0, &mut out);
    push_nat_text(340282366920938463463374607431768211455, &mut out);
    assert_eq!(out, chars("x0340282366920938463463374607431768211455"));
    let mut out = chars("");
    push_fixed_digits(42, 5, &mut out);
    push_fixed_digits(12345, 3, &mut out);
    push_fixed_digits(7, 0, &mut out);
    assert_eq!(out, chars("00042345"));
}
