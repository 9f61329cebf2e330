use ordinal_date::{parse_day, parse_month, parse_preposition, parse_year, tokenize, Date,
    ParseDateError};
use std::str::FromStr;

#[test]
fn it_should_return_correct_month_number_from_uppercase_month() {
    assert_eq!(parse_month("May"), Ok(5));
}

#[test]
fn it_should_return_correct_month_number_from_lowercase_month() {
    assert_eq!(parse_month("august"), Ok(8));
}

#[test]
fn it_should_return_an_error_for_unknown_month() {
    let name = "noSuchMonth";

    assert_eq!(parse_month(name), Err(ParseDateError::UnknownMonth(name.to_string())));
}

#[test]
fn it_should_return_ok_four_element_tuple_of_tokens() {
    let input_str = "24th of May 1990";

    assert_eq!(
        tokenize(input_str),
        Ok(("24th".to_string(), "of".to_string(), "May".to_string(), "1990".to_string()))
    );
}

#[test]
fn it_should_return_err_malformed_date_string() {
    let input_str = "not enough tokens";

    assert_eq!(tokenize(input_str), Err(ParseDateError::MalformedDateString(input_str.to_string())));
}

#[test]
fn it_should_return_ok_if_preposition_is_of() {
    let input_str = "of";

    assert_eq!(parse_preposition(input_str), Ok(()));
}

#[test]
fn it_should_return_err_unknown_preposition() {
    let input_str = "totallyNotAPreposition";

    assert_eq!(
        parse_preposition(input_str),
        Err(ParseDateError::UnknownPreposition(input_str.to_string()))
    );
}

#[test]
fn it_should_parse_correct_day() {
    let input_str = "31st";
    let month: u8 = 1;
    let year: i32 = 2018;

    assert_eq!(parse_day(input_str, month, year), Ok(31));
}

#[test]
fn it_should_return_err_when_day_does_not_fit_in_month() {
    let input_str = "31st";
    let month: u8 = 4;
    let year: i32 = 2018;

    assert_eq!(
        parse_day(input_str, month, year),
        Err(ParseDateError::DayDoesNotFitInMonth(31, month))
    );
}

#[test]
fn it_should_return_err_on_negative_day() {
    let input_str = "-2nd";
    let month: u8 = 1;
    let year: i32 = 2018;

    assert_eq!(
        parse_day(input_str, month, year),
        Err(ParseDateError::MalformedDay(input_str.to_string()))
    );
}

#[test]
fn it_should_return_err_on_day_over_31() {
    let input_str = "32nd";
    let month: u8 = 1;
    let year: i32 = 2018;

    assert_eq!(
        parse_day(input_str, month, year),
        Err(ParseDateError::DayDoesNotFitInMonth(32, 1))
    );
}

#[test]
fn it_should_return_err_when_day_cant_be_parsed() {
    let input_str = "some-trash";
    let month: u8 = 1;
    let year: i32 = 2018;

    assert_eq!(
        parse_day(input_str, month, year),
        Err(ParseDateError::MalformedDay(input_str.to_string()))
    );
}

#[test]
fn it_should_return_err_when_postfix_is_incorrect() {
    let input_str = "22rd";
    let month: u8 = 1;
    let year: i32 = 2018;

    assert_eq!(
        parse_day(input_str, month, year),
        Err(ParseDateError::InvalidDayPostfix(22, "rd".to_string()))
    );
}

#[test]
fn it_should_allow_february_29_on_leap_year() {
    let input_str = "29th";
    let month: u8 = 2;
    let leap_year: i32 = 2016;

    assert_eq!(parse_day(input_str, month, leap_year), Ok(29));
}

#[test]
fn it_should_return_err_when_february_29_on_non_leap_year() {
    let input_str = "29th";
    let month: u8 = 2;
    let non_leap_year: i32 = 2017;

    assert_eq!(
        parse_day(input_str, month, non_leap_year),
        Err(ParseDateError::NonLeapYear(non_leap_year))
    );
}

#[test]
fn it_should_parse_correct_year() {
    let input_str = "1990";

    assert_eq!(parse_year(input_str), Ok(1990));
}

#[test]
fn it_should_allow_negative_year() {
    let input_str = "-4000";

    assert_eq!(parse_year(input_str), Ok(-4000));
}

#[test]
fn it_should_return_err_when_year_cant_be_parsed() {
    let input_str = "totallyNotAYear";

    assert_eq!(parse_year(input_str), Err(ParseDateError::MalformedYear(input_str.to_string())));
}

#[test]
fn it_should_parse_the_date() {
    let input_str = "24th of May 1990";
    let date = Date::from_str(input_str);

    assert!(date.is_ok());
    let unwrapped = date.unwrap();
    assert_eq!(unwrapped.get_day(), 24);
    assert_eq!(unwrapped.get_month(), 5);
    assert_eq!(unwrapped.get_year(), 1990);
}
