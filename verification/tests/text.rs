use omnipaxos_kv::text::{chars_of, decimal_text, parse_i64, signed_text, trim_quotes};

#[test]
fn decimal_of_small_and_large_numbers() {
    assert_eq!(decimal_text(0), "0");
    assert_eq!(decimal_text(9), "9");
    assert_eq!(decimal_text(10), "10");
    assert_eq!(decimal_text(1_234_567_890), "1234567890");
    assert_eq!(decimal_text(u64::MAX), "18446744073709551615");
}

#[test]
fn signed_text_at_the_ends_of_the_range() {
    assert_eq!(signed_text(0), "0");
    assert_eq!(signed_text(-7), "-7");
    assert_eq!(signed_text(i64::MAX), "9223372036854775807");
    assert_eq!(signed_text(i64::MIN), "-9223372036854775808");
}

#[test]
fn integers_read_back_from_their_text() {
    for n in [0i64, 1, -1, 42, -1000, i64::MAX, i64::MIN, i64::MIN + 1] {
        assert_eq!(parse_i64(&signed_text(n)), Some(n));
    }
}

#[test]
fn parse_agrees_with_the_standard_library() {
    let texts = [
        "", "-", "+", "+-1", "--1", "0", "-0", "+5", "007", " 1", "1 ", "1_000", "12a", "a12", "1.5",
        "\u{663}", "9223372036854775807", "9223372036854775808", "-9223372036854775808",
        "-9223372036854775809", "+9223372036854775807", "+9223372036854775808",
        "00000000000000000000000000000000000000012", "99999999999999999999999999999999999999999",
    ];
    for text in texts {
        assert_eq!(parse_i64(text), text.parse::<i64>().ok(), "{text:?}");
    }
}

#[test]
fn quotes_are_trimmed_at_both_ends() {
    for text in ["", "\"", "\"\"", "\"\"\"", "abc", "\"abc\"", "\"\"a\"b\"\"", "a\"b", "\u{e9}\"", "\\\""] {
        assert_eq!(trim_quotes(text), text.trim_matches('"'), "{text:?}");
    }
}

#[test]
fn characters_come_one_by_one() {
    assert_eq!(chars_of("a\u{20ac}b"), vec!['a', '\u{20ac}', 'b']);
    assert_eq!(chars_of(""), Vec::<char>::new());
}
