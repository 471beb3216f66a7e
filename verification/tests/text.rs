use rustic_sql::query::validate_query_string;
use rustic_sql::utils::errors::Errored;
use rustic_sql::utils::text::{
    chars_of, parse_i64, push_decimal, push_signed_decimal, same_text, text_lt, text_of,
    to_upper_text,
};

#[test]
fn parse_i64_reads_signs_and_digits() {
    assert_eq!(parse_i64("0"), Some(0));
    assert_eq!(parse_i64("360"), Some(360));
    assert_eq!(parse_i64("+7"), Some(7));
    assert_eq!(parse_i64("-7"), Some(-7));
    assert_eq!(parse_i64("-0"), Some(0));
    assert_eq!(parse_i64("0000000000000000000000042"), Some(42));
}

#[test]
fn parse_i64_rejects_what_is_no_number() {
    assert_eq!(parse_i64(""), None);
    assert_eq!(parse_i64("-"), None);
    assert_eq!(parse_i64("+"), None);
    assert_eq!(parse_i64("12a"), None);
    assert_eq!(parse_i64(" 12"), None);
    assert_eq!(parse_i64("1 2"), None);
    assert_eq!(parse_i64("--1"), None);
    assert_eq!(parse_i64("١٢"), None);
}

#[test]
fn parse_i64_keeps_to_the_range() {
    assert_eq!(parse_i64("9223372036854775807"), Some(i64::MAX));
    assert_eq!(parse_i64("9223372036854775808"), None);
    assert_eq!(parse_i64("-9223372036854775808"), Some(i64::MIN));
    assert_eq!(parse_i64("-9223372036854775809"), None);
    assert_eq!(parse_i64("99999999999999999999999999"), None);
}

#[test]
fn parse_i64_agrees_with_the_standard_parser() {
    let samples = [
        "", "-", "+", "0", "-0", "+0", "007", "12", "-12", "+12", "1-2", "12 ", "a", "1e3",
        "9223372036854775807", "9223372036854775808", "-9223372036854775808",
        "-9223372036854775809", "18446744073709551616",
    ];
    for text in samples {
        assert_eq!(parse_i64(text), text.parse::<i64>().ok(), "for {:?}", text);
    }
}

#[test]
fn decimal_writes_numbers_without_leading_zeros() {
    let mut text = String::from("n=");
    push_decimal(&mut text, 0);
    text.push(';');
    push_decimal(&mut text, 10);
    text.push(';');
    push_decimal(&mut text, 18446744073709551615);
    assert_eq!(text, "n=0;10;18446744073709551615");
}

#[test]
fn signed_decimal_writes_the_sign() {
    let mut text = String::new();
    push_signed_decimal(&mut text, -360);
    text.push(' ');
    push_signed_decimal(&mut text, i64::MIN);
    text.push(' ');
    push_signed_decimal(&mut text, i64::MAX);
    assert_eq!(text, "-360 -9223372036854775808 9223372036854775807");
}

#[test]
fn text_order_is_lexicographic_by_code_point() {
    assert!(text_lt("a", "b"));
    assert!(!text_lt("b", "a"));
    assert!(!text_lt("a", "a"));
    assert!(text_lt("", "a"));
    assert!(!text_lt("a", ""));
    assert!(text_lt("ab", "abc"));
    assert!(text_lt("Z", "a"));
    assert!(text_lt("10", "9"));
    assert!(text_lt("z", "é"));
    assert!(text_lt("é", "\u{10000}"));
}

#[test]
fn text_order_agrees_with_the_standard_order() {
    let samples = ["", "a", "A", "ab", "abc", "b", "é", "z", "10", "9", "\u{ffff}", "\u{10000}"];
    for a in samples {
        for b in samples {
            assert_eq!(text_lt(a, b), a < b, "for {:?} and {:?}", a, b);
        }
    }
}

#[test]
fn chars_and_text_convert_both_ways() {
    let chars = chars_of("añb");
    assert_eq!(chars, vec!['a', 'ñ', 'b']);
    assert_eq!(text_of(&chars, 0, 3), "añb");
    assert_eq!(text_of(&chars, 1, 2), "ñ");
    assert_eq!(text_of(&chars, 2, 2), "");
}

#[test]
fn upper_case_touches_ascii_letters_only() {
    assert_eq!(to_upper_text("order by"), "ORDER BY");
    assert_eq!(to_upper_text("añb_1("), "AñB_1(");
}

#[test]
fn same_text_compares_the_characters() {
    assert!(same_text("FROM", "FROM"));
    assert!(!same_text("FROM", "from"));
    assert!(!same_text("FROM", "FROM "));
}

#[test]
fn a_blank_query_is_rejected() {
    for query in ["", "   ", "\n\t ", "\u{a0}"] {
        match validate_query_string(query) {
            Err(Errored::Default(message)) => assert_eq!(message, "query is empty."),
            other => panic!("expected a generic error, got {:?}", other),
        }
    }
    assert!(validate_query_string(" SELECT ").is_ok());
    assert!(validate_query_string(";").is_ok());
}

#[test]
fn errors_are_shown_with_their_tag() {
    assert_eq!(
        Errored::Syntax("a".to_string()).to_string(),
        "[INVALID_SYNTAX]: a"
    );
    assert_eq!(
        Errored::Column("b".to_string()).to_string(),
        "[INVALID_COLUMN]: b"
    );
    assert_eq!(
        Errored::Table("c".to_string()).to_string(),
        "[INVALID_TABLE]: c"
    );
    assert_eq!(Errored::Default("d".to_string()).to_string(), "[ERROR]: d");
    assert_eq!(Errored::Default("d".to_string()).message(), "d");
}

use rustic_sql::utils::text::{
    char_is_alphanumeric, char_is_ascii_digit, char_is_whitespace, to_ascii_upper,
};

#[test]
fn the_character_classes_are_those_of_the_standard_library() {
    for code in 0..=0x10ffff_u32 {
        if let Some(c) = char::from_u32(code) {
            assert_eq!(char_is_whitespace(c), c.is_whitespace(), "for {:?}", c);
            assert_eq!(char_is_alphanumeric(c), c.is_alphanumeric(), "for {:?}", c);
            assert_eq!(char_is_ascii_digit(c), c.is_ascii_digit(), "for {:?}", c);
            assert_eq!(to_ascii_upper(c), c.to_ascii_uppercase(), "for {:?}", c);
        }
    }
}

#[test]
fn whitespace_and_letters_beyond_ascii_are_known() {
    assert!(char_is_whitespace('\u{a0}') && char_is_whitespace('\u{2028}'));
    assert!(!char_is_whitespace('\u{200b}') && !char_is_whitespace('ñ'));
    assert!(char_is_alphanumeric('ñ') && char_is_alphanumeric('٣') && char_is_alphanumeric('藏'));
    assert!(!char_is_alphanumeric('¿') && !char_is_alphanumeric('\u{a0}'));
}
