use ordinal_date::{is_leap_year, parse_day, parse_month, parse_preposition, parse_year, tokenize,
    validate_day_month, validate_day_postfix, validate_leap_year, Date, ParseDateError};

#[test]
fn month_lookup_ignores_case() {
    assert_eq!(parse_month("May"), Ok(5));
    assert_eq!(parse_month("may"), Ok(5));
    assert_eq!(parse_month("MAY"), Ok(5));
}

#[test]
fn every_month_name_parses_to_its_number() {
    let names = [
        "january", "february", "march", "april", "may", "june", "july", "august", "september",
        "october", "november", "december",
    ];
    let mut number: u8 = 1;
    for name in names {
        assert_eq!(parse_month(name), Ok(number));
        number += 1;
    }
}

#[test]
fn month_abbreviations_are_rejected() {
    assert_eq!(parse_month("Jan"), Err(ParseDateError::UnknownMonth("Jan".to_string())));
}

#[test]
fn empty_input_has_zero_tokens() {
    assert_eq!(
        Date::parse(""),
        Err(ParseDateError::MalformedDateString("".to_string()))
    );
}

#[test]
fn five_tokens_are_too_many() {
    let input_str = "24th of May 1990 extra";

    assert_eq!(
        Date::parse(input_str),
        Err(ParseDateError::MalformedDateString(input_str.to_string()))
    );
}

#[test]
fn runs_of_whitespace_separate_tokens() {
    assert_eq!(
        tokenize("  24th \t of\n May  1990  "),
        Ok(("24th".to_string(), "of".to_string(), "May".to_string(), "1990".to_string()))
    );
}

#[test]
fn preposition_match_is_case_sensitive() {
    assert_eq!(
        parse_preposition("Of"),
        Err(ParseDateError::UnknownPreposition("Of".to_string()))
    );
}

#[test]
fn year_accepts_a_leading_plus_sign() {
    assert_eq!(parse_year("+1990"), Ok(1990));
}

#[test]
fn year_rejects_a_lone_sign() {
    assert_eq!(parse_year("-"), Err(ParseDateError::MalformedYear("-".to_string())));
}

#[test]
fn year_accepts_the_extreme_values() {
    assert_eq!(parse_year("2147483647"), Ok(2147483647));
    assert_eq!(parse_year("-2147483648"), Ok(-2147483648));
}

#[test]
fn year_rejects_overflow() {
    assert_eq!(
        parse_year("2147483648"),
        Err(ParseDateError::MalformedYear("2147483648".to_string()))
    );
    assert_eq!(
        parse_year("99999999999999999999"),
        Err(ParseDateError::MalformedYear("99999999999999999999".to_string()))
    );
}

#[test]
fn day_zero_fits_no_month() {
    assert_eq!(parse_day("0th", 1, 2018), Err(ParseDateError::DayDoesNotFitInMonth(0, 1)));
}

#[test]
fn day_beyond_a_byte_is_malformed() {
    assert_eq!(parse_day("256th", 1, 2018), Err(ParseDateError::MalformedDay("256th".to_string())));
}

#[test]
fn day_range_is_checked_before_the_suffix() {
    assert_eq!(parse_day("32st", 1, 2018), Err(ParseDateError::DayDoesNotFitInMonth(32, 1)));
}

#[test]
fn thirty_first_demands_st() {
    assert_eq!(
        parse_day("31th", 1, 2018),
        Err(ParseDateError::InvalidDayPostfix(31, "th".to_string()))
    );
    assert_eq!(parse_day("30th", 1, 2018), Ok(30));
}

#[test]
fn century_years_follow_the_four_hundred_rule() {
    assert!(is_leap_year(2000));
    assert!(!is_leap_year(1900));
    assert!(is_leap_year(2016));
    assert!(!is_leap_year(2017));
    assert!(is_leap_year(-44));
    assert_eq!(parse_day("29th", 2, 2000), Ok(29));
    assert_eq!(parse_day("29th", 2, 1900), Err(ParseDateError::NonLeapYear(1900)));
}

#[test]
fn stage_checks_agree_with_parse_day() {
    assert_eq!(validate_day_month(30, 4), Ok(()));
    assert_eq!(validate_day_month(31, 4), Err(ParseDateError::DayDoesNotFitInMonth(31, 4)));
    assert_eq!(validate_day_postfix(22, "nd"), Ok(()));
    assert_eq!(
        validate_day_postfix(22, "rd"),
        Err(ParseDateError::InvalidDayPostfix(22, "rd".to_string()))
    );
    assert_eq!(validate_leap_year(29, 2, 2016), Ok(()));
    assert_eq!(validate_leap_year(29, 2, 2017), Err(ParseDateError::NonLeapYear(2017)));
    assert_eq!(validate_leap_year(28, 2, 2017), Ok(()));
}

#[test]
fn negative_years_parse_end_to_end() {
    let date = Date::parse("15th of March -44").unwrap();

    assert_eq!(date.get_day(), 15);
    assert_eq!(date.get_month(), 3);
    assert_eq!(date.get_year(), -44);
}

#[test]
fn canonical_text_round_trips() {
    let first = Date::parse("24th of May 1990").unwrap();
    let rendered = first.to_canonical_string();

    assert_eq!(rendered, "24th of may 1990");
    let second = Date::parse(rendered.as_str()).unwrap();
    assert_eq!(second, first);
}

#[test]
fn canonical_text_round_trips_for_a_negative_year() {
    let first = Date::parse("1st of January -44").unwrap();
    let rendered = first.to_canonical_string();

    assert_eq!(rendered, "1st of january -44");
    let second = Date::parse(rendered.as_str()).unwrap();
    assert_eq!(second, first);
}

#[test]
fn the_first_failing_stage_decides_the_error() {
    assert_eq!(
        Date::parse("31st of Smarch notayear"),
        Err(ParseDateError::MalformedYear("notayear".to_string()))
    );
    assert_eq!(
        Date::parse("31st off Smarch 2018"),
        Err(ParseDateError::UnknownPreposition("off".to_string()))
    );
    assert_eq!(
        Date::parse("31st of Smarch 2018"),
        Err(ParseDateError::UnknownMonth("Smarch".to_string()))
    );
    assert_eq!(
        Date::parse("31st of April 2018"),
        Err(ParseDateError::DayDoesNotFitInMonth(31, 4))
    );
}
