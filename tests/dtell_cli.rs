use dtell::answer::{format_date, get_epoch_days, run, Response};
use dtell::calendar::{shift_days, CivilDate};
use dtell::cli::{get_command_line_args, parse_days, DtellError, Request};
use dtell::digits::parse_i64;
use dtell::manual::help_text;
use dtell::render::{write_date, DateFormat};

fn words(list: &[&str]) -> Vec<String> {
    list.iter().map(|w| w.to_string()).collect()
}

fn date(year: i32, month: u32, day: u32) -> CivilDate {
    CivilDate::from_ymd(year, month, day).unwrap()
}

fn fits(t: &str, shape: &str) -> bool {
    t.len() == shape.len()
        && t.chars().zip(shape.chars()).all(|(c, p)| if p == '9' { c.is_ascii_digit() } else { c == p })
}

fn looks_like_date(t: &str) -> bool {
    fits(t, "99/99/9999") || fits(t, "9999-99-99")
}

fn answer(list: &[&str], today: CivilDate) -> Result<Response, DtellError> {
    run(&words(list), today)
}

fn text(s: &str) -> Result<Response, DtellError> {
    Ok(Response::Date(s.to_string()))
}

#[test]
fn positional_count_equals_days_flag() {
    let today = date(2025, 3, 10);
    for n in ["5", "-7", "0", "+12", "400"] {
        assert_eq!(answer(&[n], today), answer(&["--days", n], today));
        assert_eq!(answer(&[n], today), answer(&["-d", n], today));
    }
    assert_eq!(answer(&["5"], today), text("2025-03-15"));
}

#[test]
fn three_formats_name_the_same_date() {
    let today = date(2024, 2, 20);
    assert_eq!(answer(&["-d", "9", "-f", "iso"], today), text("2024-02-29"));
    assert_eq!(answer(&["-d", "9", "-f", "gen"], today), text("29/02/2024"));
    assert_eq!(answer(&["-d", "9", "-f", "us"], today), text("02/29/2024"));
}

#[test]
fn zero_days_is_today() {
    let today = date(2025, 3, 10);
    assert_eq!(answer(&["--days", "0", "--format", "iso"], today), text("2025-03-10"));
}

#[test]
fn invalid_days_token_is_named() {
    let today = date(2025, 3, 10);
    let r = answer(&["-d", "cat"], today);
    assert_eq!(r, Err(DtellError::InvalidDaysValue("cat".to_string())));
}

#[test]
fn unrecognized_format_with_valid_offset() {
    let today = date(2025, 3, 10);
    let r = answer(&["--format", "xyz", "--days", "1"], today);
    assert_eq!(r, Err(DtellError::UnrecognizedFormat("xyz".to_string())));
}

#[test]
fn extra_positional_is_unknown_argument() {
    let today = date(2025, 3, 10);
    let r = answer(&["--days", "5", "extra"], today);
    assert_eq!(r, Err(DtellError::UnknownArgument("extra".to_string())));
}

#[test]
fn help_prints_manual_only() {
    let today = date(2025, 3, 10);
    assert_eq!(answer(&["--help"], today), Ok(Response::Help));
    assert_eq!(answer(&["-h"], today), Ok(Response::Help));
    assert_eq!(answer(&["--days", "5", "--help", "junk"], today), Ok(Response::Help));
    let manual = help_text();
    assert!(!manual.is_empty());
    assert!(manual.starts_with("\nNAME\n"));
    assert!(manual.contains("dtell"));
    assert!(manual.contains("SYNOPSIS"));
    for name in ["gen", "us", "iso"] {
        assert!(manual.contains(name));
    }
    for line in manual.lines() {
        assert!(!looks_like_date(line.trim()));
    }
}

#[test]
fn no_arguments_is_no_calculation() {
    let today = date(2025, 3, 10);
    assert_eq!(answer(&[], today), Err(DtellError::NoOffsetProvided));
    assert_eq!(answer(&["-f", "us"], today), Err(DtellError::NoOffsetProvided));
}

#[test]
fn leap_day_follows_february_28() {
    let today = date(2024, 2, 28);
    assert_eq!(answer(&["1"], today), text("2024-02-29"));
    assert_eq!(answer(&["2"], date(2023, 2, 28)), text("2023-03-02"));
}

#[test]
fn missing_values_after_flags() {
    let today = date(2025, 3, 10);
    assert_eq!(answer(&["--days"], today), Err(DtellError::MissingDaysValue));
    assert_eq!(answer(&["-d"], today), Err(DtellError::MissingDaysValue));
    assert_eq!(answer(&["5", "--format"], today), Err(DtellError::MissingFormatValue));
    assert_eq!(answer(&["-f"], today), Err(DtellError::MissingFormatValue));
}

#[test]
fn positional_word_must_be_integer() {
    let today = date(2025, 3, 10);
    assert_eq!(answer(&["abc"], today), Err(DtellError::InvalidDaysValue("abc".to_string())));
    assert_eq!(answer(&["--d", "5"], today), Err(DtellError::InvalidDaysValue("--d".to_string())));
}

#[test]
fn later_days_flag_wins() {
    let today = date(2025, 3, 10);
    assert_eq!(answer(&["-d", "1", "--days", "3"], today), text("2025-03-13"));
    assert_eq!(answer(&["-d", "2", "-d", "x"], today), Err(DtellError::InvalidDaysValue("x".to_string())));
}

#[test]
fn positional_then_days_flag_overrides() {
    let today = date(2025, 3, 10);
    assert_eq!(answer(&["1", "-d", "2"], today), text("2025-03-12"));
}

#[test]
fn parse_result_defaults_to_iso() {
    assert_eq!(
        get_command_line_args(&words(&["7"])),
        Ok(Request::Compute { offset: 7, format: "iso".to_string() })
    );
    assert_eq!(
        get_command_line_args(&words(&["-f", "anything", "-d", "-3"])),
        Ok(Request::Compute { offset: -3, format: "anything".to_string() })
    );
}

#[test]
fn parse_days_moves_onto_value() {
    let args = words(&["-d", "42", "x"]);
    let mut i: usize = 0;
    assert_eq!(parse_days(&args, &mut i), Ok(42));
    assert_eq!(i, 1);
    let bad = words(&["-d", "4x"]);
    let mut j: usize = 0;
    assert_eq!(parse_days(&bad, &mut j), Err(DtellError::InvalidDaysValue("4x".to_string())));
    assert_eq!(j, 0);
    let short = words(&["-d"]);
    let mut k: usize = 0;
    assert_eq!(parse_days(&short, &mut k), Err(DtellError::MissingDaysValue));
    let mut past: usize = 5;
    assert_eq!(parse_days(&short, &mut past), Err(DtellError::MissingDaysValue));
    assert_eq!(past, 5);
}

#[test]
fn negative_offsets_cross_year() {
    let today = date(2024, 1, 1);
    assert_eq!(answer(&["--days", "-1", "--format", "gen"], today), text("31/12/2023"));
    assert_eq!(answer(&["--days", "-10", "--format", "us"], date(2025, 3, 5)), text("02/23/2025"));
}

#[test]
fn long_offsets() {
    assert_eq!(get_epoch_days(date(2000, 1, 1), 1000, "iso"), Ok("2002-09-27".to_string()));
    assert_eq!(get_epoch_days(date(2000, 3, 1), -1, "iso"), Ok("2000-02-29".to_string()));
    assert_eq!(get_epoch_days(date(1900, 3, 1), -1, "iso"), Ok("1900-02-28".to_string()));
}

#[test]
fn offsets_past_the_calendar_fail() {
    let today = date(2025, 3, 10);
    assert_eq!(get_epoch_days(today, i64::MAX, "iso"), Err(DtellError::OutOfRange));
    assert_eq!(get_epoch_days(today, i64::MIN, "iso"), Err(DtellError::OutOfRange));
    assert_eq!(answer(&["9223372036854775807"], today), Err(DtellError::OutOfRange));
    assert_eq!(shift_days(date(262142, 12, 31), 1), None);
    assert_eq!(shift_days(date(262142, 12, 30), 1), Some(date(262142, 12, 31)));
    assert_eq!(shift_days(date(-262143, 1, 1), -1), None);
}

#[test]
fn counts_beyond_i64_are_invalid() {
    let today = date(2025, 3, 10);
    assert_eq!(
        answer(&["9223372036854775808"], today),
        Err(DtellError::InvalidDaysValue("9223372036854775808".to_string()))
    );
}

#[test]
fn integer_parsing() {
    assert_eq!(parse_i64("5"), Some(5));
    assert_eq!(parse_i64("+5"), Some(5));
    assert_eq!(parse_i64("-0"), Some(0));
    assert_eq!(parse_i64("007"), Some(7));
    assert_eq!(parse_i64("9223372036854775807"), Some(i64::MAX));
    assert_eq!(parse_i64("-9223372036854775808"), Some(i64::MIN));
    assert_eq!(parse_i64("9223372036854775808"), None);
    assert_eq!(parse_i64("-9223372036854775809"), None);
    assert_eq!(parse_i64(""), None);
    assert_eq!(parse_i64("-"), None);
    assert_eq!(parse_i64("+"), None);
    assert_eq!(parse_i64(" 5"), None);
    assert_eq!(parse_i64("5 "), None);
    assert_eq!(parse_i64("1.5"), None);
    assert_eq!(parse_i64("--5"), None);
}

#[test]
fn unusual_years_are_written_in_full() {
    assert_eq!(write_date(date(5, 1, 2), DateFormat::Iso), "0005-01-02");
    assert_eq!(write_date(date(5, 1, 2), DateFormat::General), "02/01/0005");
    assert_eq!(write_date(date(12345, 6, 7), DateFormat::Iso), "+12345-06-07");
    assert_eq!(write_date(date(12345, 6, 7), DateFormat::Us), "06/07/12345");
    assert_eq!(write_date(date(-44, 3, 15), DateFormat::Iso), "-0044-03-15");
    assert_eq!(write_date(date(-44, 3, 15), DateFormat::General), "15/03/-0044");
}

#[test]
fn format_names_are_exact() {
    assert_eq!(DateFormat::from_name("gen"), Some(DateFormat::General));
    assert_eq!(DateFormat::from_name("us"), Some(DateFormat::Us));
    assert_eq!(DateFormat::from_name("iso"), Some(DateFormat::Iso));
    assert_eq!(DateFormat::from_name("ISO"), None);
    assert_eq!(DateFormat::from_name(""), None);
    assert_eq!(
        format_date(date(2025, 12, 1), "GEN"),
        Err(DtellError::UnrecognizedFormat("GEN".to_string()))
    );
    assert_eq!(format_date(date(2025, 12, 1), "us"), Ok("12/01/2025".to_string()));
}

#[test]
fn calendar_dates_are_checked() {
    assert_eq!(CivilDate::from_ymd(2023, 2, 29), None);
    assert!(CivilDate::from_ymd(2024, 2, 29).is_some());
    assert!(CivilDate::from_ymd(2000, 2, 29).is_some());
    assert_eq!(CivilDate::from_ymd(1900, 2, 29), None);
    assert_eq!(CivilDate::from_ymd(2025, 4, 31), None);
    assert_eq!(CivilDate::from_ymd(2025, 13, 1), None);
    assert_eq!(CivilDate::from_ymd(2025, 0, 1), None);
    assert_eq!(CivilDate::from_ymd(2025, 1, 0), None);
    assert_eq!(CivilDate::from_ymd(262143, 1, 1), None);
}
