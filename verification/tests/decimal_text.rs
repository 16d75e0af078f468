use lastfm_query::decimal::{parse_i64, parse_u64, render_i64, render_u64};
use lastfm_query::text::{join_strings, pad_to_width, same_text, trim_end};

#[test]
fn parse_u64_reads_digits() {
    assert_eq!(parse_u64("0"), Ok(0));
    assert_eq!(parse_u64("123"), Ok(123));
    assert_eq!(parse_u64("+42"), Ok(42));
    assert_eq!(parse_u64("007"), Ok(7));
    assert_eq!(parse_u64("18446744073709551615"), Ok(u64::MAX));
}

#[test]
fn parse_u64_refuses_non_numbers() {
    assert!(parse_u64("").is_err());
    assert!(parse_u64("+").is_err());
    assert!(parse_u64("-1").is_err());
    assert!(parse_u64("12a").is_err());
    assert!(parse_u64(" 1").is_err());
    assert!(parse_u64("18446744073709551616").is_err());
    assert!(parse_u64("99999999999999999999999x").is_err());
}

#[test]
fn parse_i64_reads_signed_numbers() {
    assert_eq!(parse_i64("1546300800"), Ok(1546300800));
    assert_eq!(parse_i64("-17"), Ok(-17));
    assert_eq!(parse_i64("+17"), Ok(17));
    assert_eq!(parse_i64("-9223372036854775808"), Ok(i64::MIN));
    assert_eq!(parse_i64("9223372036854775807"), Ok(i64::MAX));
}

#[test]
fn parse_i64_refuses_non_numbers() {
    assert!(parse_i64("-").is_err());
    assert!(parse_i64("").is_err());
    assert!(parse_i64("--1").is_err());
    assert!(parse_i64("+-1").is_err());
    assert!(parse_i64("9223372036854775808").is_err());
    assert!(parse_i64("-9223372036854775809").is_err());
    assert!(parse_i64("1.5").is_err());
}

#[test]
fn render_writes_decimal() {
    assert_eq!(render_u64(0), "0");
    assert_eq!(render_u64(200), "200");
    assert_eq!(render_u64(u64::MAX), "18446744073709551615");
    assert_eq!(render_i64(-5), "-5");
    assert_eq!(render_i64(0), "0");
    assert_eq!(render_i64(i64::MIN), "-9223372036854775808");
    assert_eq!(render_i64(1546300801), "1546300801");
}

#[test]
fn rendered_numbers_read_back() {
    for n in [0i64, 1, -1, 9, 10, -10, 123456789, i64::MAX, i64::MIN] {
        assert_eq!(parse_i64(&render_i64(n)), Ok(n));
    }
    for n in [0u64, 9, 10, 99, 100, u64::MAX] {
        assert_eq!(parse_u64(&render_u64(n)), Ok(n));
    }
}

#[test]
fn trim_end_drops_trailing_white_space() {
    assert_eq!(trim_end("abc \n\t"), "abc");
    assert_eq!(trim_end("  abc"), "  abc");
    assert_eq!(trim_end("a b\u{3000}\u{85}"), "a b");
    assert_eq!(trim_end(" \n "), "");
    assert_eq!(trim_end(""), "");
    assert_eq!(trim_end("x\u{200b}"), "x\u{200b}");
}

#[test]
fn trim_end_twice_is_trim_end_once() {
    for s in ["key \n", "  ", "a\u{2029}b\u{2028}", ""] {
        let once = trim_end(s);
        assert_eq!(trim_end(&once), once);
    }
}

#[test]
fn pad_and_join() {
    assert_eq!(pad_to_width("ab", 4), "ab  ");
    assert_eq!(pad_to_width("abcdef", 4), "abcdef");
    assert_eq!(pad_to_width("é", 2), "é ");
    let parts = vec!["a".to_string(), "bb".to_string(), "".to_string()];
    assert_eq!(join_strings(&parts, " | "), "a | bb | ");
    assert_eq!(join_strings(&[], ","), "");
}

#[test]
fn same_text_compares_characters() {
    assert!(same_text("sync", "sync"));
    assert!(!same_text("sync", "syn"));
    assert!(!same_text("sql", "sqL"));
    assert!(same_text("", ""));
}
