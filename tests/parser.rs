use refresh_rate::display_args::{
    invalid_message, parse_display_args, DisplayArgs, NewDisplayConfig, ErrorKind,
};
use refresh_rate::text::{parse_u32, split_at_skip_mid_char};

fn args(index: u32, refresh_rate: u32) -> DisplayArgs {
    DisplayArgs(index, NewDisplayConfig { refresh_rate })
}

#[test]
fn test_raw_parse_err() {
    assert_eq!(parse_display_args(":"), Err(ErrorKind::NoValueBeforeSemicolon));
    assert_eq!(parse_display_args("1:"), Err(ErrorKind::NoValueAfterSemicolon));
    assert_eq!(parse_display_args("1"), Err(ErrorKind::NoSemicolon));
    assert_eq!(parse_display_args("1::"), Err(ErrorKind::TooMuchSemicolon));
    assert_eq!(parse_display_args("1:0"), Err(ErrorKind::RefreshRateNull));
}

#[test]
fn test_raw_parse_ok() {
    assert_eq!(parse_display_args("1:300"), Ok(args(1, 300)));
}

#[test]
fn well_formed_tokens_read_exactly() {
    assert_eq!(parse_display_args("0:60"), Ok(args(0, 60)));
    assert_eq!(parse_display_args("12:144"), Ok(args(12, 144)));
    assert_eq!(parse_display_args("007:075"), Ok(args(7, 75)));
    assert_eq!(parse_display_args("4294967295:4294967295"), Ok(args(u32::MAX, u32::MAX)));
}

#[test]
fn separator_count_errors() {
    assert_eq!(parse_display_args(""), Err(ErrorKind::NoSemicolon));
    assert_eq!(parse_display_args("1300"), Err(ErrorKind::NoSemicolon));
    assert_eq!(parse_display_args("1:3:0"), Err(ErrorKind::TooMuchSemicolon));
    assert_eq!(parse_display_args("::"), Err(ErrorKind::TooMuchSemicolon));
    assert_eq!(parse_display_args(":::5"), Err(ErrorKind::TooMuchSemicolon));
    assert_eq!(parse_display_args("é"), Err(ErrorKind::NoSemicolon));
    assert_eq!(parse_display_args("é:ü:1"), Err(ErrorKind::TooMuchSemicolon));
}

#[test]
fn missing_parts_and_zero_rate() {
    assert_eq!(parse_display_args(":5"), Err(ErrorKind::NoValueBeforeSemicolon));
    assert_eq!(parse_display_args("5:"), Err(ErrorKind::NoValueAfterSemicolon));
    assert_eq!(parse_display_args("5:0"), Err(ErrorKind::RefreshRateNull));
    assert_eq!(parse_display_args("5:000"), Err(ErrorKind::RefreshRateNull));
}

#[test]
fn integer_format_errors() {
    assert_eq!(parse_display_args("a:60"), Err(ErrorKind::InvalidInteger));
    assert_eq!(parse_display_args("1:6o"), Err(ErrorKind::InvalidInteger));
    assert_eq!(parse_display_args("-1:60"), Err(ErrorKind::InvalidInteger));
    assert_eq!(parse_display_args("4294967296:60"), Err(ErrorKind::InvalidInteger));
    assert_eq!(parse_display_args("1:99999999999999999999"), Err(ErrorKind::InvalidInteger));
    assert_eq!(parse_display_args("+:60"), Err(ErrorKind::InvalidInteger));
    assert_eq!(parse_display_args("+2:+60"), Ok(args(2, 60)));
    assert_eq!(parse_display_args("-:60"), Err(ErrorKind::InvalidInteger));
    assert_eq!(parse_display_args("1:-60"), Err(ErrorKind::InvalidInteger));
    assert_eq!(parse_display_args("é:60"), Err(ErrorKind::InvalidInteger));
}

#[test]
fn negative_zero_reads_as_zero() {
    assert_eq!(parse_display_args("-0:60"), Ok(args(0, 60)));
    assert_eq!(parse_display_args("-000:75"), Ok(args(0, 75)));
    assert_eq!(parse_display_args("5:-0"), Err(ErrorKind::RefreshRateNull));
}

#[test]
fn numbers_in_decimal() {
    assert_eq!(parse_u32("0"), Some(0));
    assert_eq!(parse_u32("+17"), Some(17));
    assert_eq!(parse_u32("4294967295"), Some(u32::MAX));
    assert_eq!(parse_u32("4294967296"), None);
    assert_eq!(parse_u32(""), None);
    assert_eq!(parse_u32("+"), None);
    assert_eq!(parse_u32("-"), None);
    assert_eq!(parse_u32("-0"), Some(0));
    assert_eq!(parse_u32("-1"), None);
    assert_eq!(parse_u32("+-1"), None);
    assert_eq!(parse_u32("1 "), None);
    assert_eq!(parse_u32("٣"), None);
}

#[test]
fn split_skips_the_middle_character() {
    assert_eq!(split_at_skip_mid_char("12:60", 2), Some(("12", "60")));
    assert_eq!(split_at_skip_mid_char(":", 0), Some(("", "")));
    assert_eq!(split_at_skip_mid_char("ab", 2), None);
    assert_eq!(split_at_skip_mid_char("aéb", 1), None);
    assert_eq!(split_at_skip_mid_char("é:ü", 1), None);
    assert_eq!(split_at_skip_mid_char("é:ü", 2), Some(("é", "ü")));
    assert_eq!(split_at_skip_mid_char("é:", 2), Some(("é", "")));
    assert_eq!(split_at_skip_mid_char("", 0), None);
    assert_eq!(split_at_skip_mid_char("a", usize::MAX), None);
}

#[test]
fn error_messages() {
    assert_eq!(
        invalid_message("1::", ErrorKind::TooMuchSemicolon.message()),
        "Invalid value `1::` : Found another `:` after the first `:`"
    );
    assert_eq!(ErrorKind::NoSemicolon.message(), "Couldn't find any `:` in the input.");
    assert_eq!(ErrorKind::RefreshRateNull.message(), "The refresh rate given is null.");
}
