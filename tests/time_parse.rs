use event_parser::calendar::TimeOfDay;
use event_parser::recognizable::Recognizable;
use event_parser::time_parse::{resolve_time, TimeExpr, TimeParseError, TimeParser};

fn hm(hour: u32, minute: u32) -> TimeOfDay {
    TimeOfDay { hour, minute }
}

fn assert_recognize_time(text: &str, expected_h: u32, expected_m: u32) {
    assert_eq!(
        TimeExpr::recognize(text),
        Ok(Some(TimeExpr::Absolute(expected_h, expected_m)))
    );
}

fn assert_in_mins_time(text: &str, expected_m: u32) {
    assert_eq!(TimeExpr::recognize(text), Ok(Some(TimeExpr::InNMins(expected_m))));
}

fn assert_in_hours_time(text: &str, expected_h: u32) {
    assert_eq!(TimeExpr::recognize(text), Ok(Some(TimeExpr::InNHours(expected_h))));
}

#[test]
fn time_parse_simple_hour_tests() {
    assert_recognize_time("12", 12, 0);
    assert_recognize_time("2", 14, 0);
    assert_recognize_time("10", 10, 0);
    assert_recognize_time("5", 17, 0);
    assert_recognize_time("at 5", 17, 0);
}

#[test]
fn time_parse_am_pm_hour_tests() {
    assert_recognize_time("10am", 10, 0);
    assert_recognize_time("10pm", 22, 0);
    assert_recognize_time("12pm", 12, 0);
    assert_recognize_time("2p", 14, 0);
}

#[test]
fn time_parse_simple_minute_tests() {
    assert_recognize_time("12:30", 12, 30);
    assert_recognize_time("2:30", 14, 30);
}

#[test]
fn time_parse_am_pm_minute_tests() {
    assert_recognize_time("10:30am", 10, 30);
    assert_recognize_time("2:30pm", 14, 30);
    assert_recognize_time("10:30AM", 10, 30);
    assert_recognize_time("2:30PM", 14, 30);
    assert_recognize_time("10:30a", 10, 30);
    assert_recognize_time("2:30p", 14, 30);
}

#[test]
fn time_parse_casual_time_tests() {
    assert_recognize_time("in the morning", 9, 0);
    assert_recognize_time("this afternoon", 14, 0);
    assert_recognize_time("in the evening", 18, 0);
    assert_recognize_time("tonight", 21, 0);
    assert_recognize_time("noon", 12, 0);
    assert_recognize_time("midnight", 0, 0);
}

#[test]
fn time_parse_relative_mins_time_tests() {
    assert_in_mins_time("in 5 mins", 5);
    assert_in_mins_time("in 10 minutes", 10);
    assert_in_mins_time("in 1 min", 1);
}

#[test]
fn time_parse_relative_hours_time_tests() {
    assert_in_hours_time("in 2 hours", 2);
    assert_in_hours_time("in 3 hrs", 3);
    assert_in_hours_time("in 1 hr", 1);
    assert_in_hours_time("in 1 hour", 1);
}

#[test]
fn simple_time_test() {
    let now = hm(8, 0);
    assert_eq!(
        TimeParser::parse_relative("Breakfast on Friday at 10:30", now),
        Some(hm(10, 30))
    );
}

#[test]
fn meridiem_and_default_afternoon() {
    assert_eq!(TimeExpr::recognize("10am"), Ok(Some(TimeExpr::Absolute(10, 0))));
    assert_eq!(TimeExpr::recognize("10pm"), Ok(Some(TimeExpr::Absolute(22, 0))));
    assert_eq!(TimeExpr::recognize("5"), Ok(Some(TimeExpr::Absolute(17, 0))));
    assert_eq!(TimeExpr::recognize("10"), Ok(Some(TimeExpr::Absolute(10, 0))));
    assert_eq!(TimeExpr::recognize("8"), Ok(Some(TimeExpr::Absolute(20, 0))));
    assert_eq!(TimeExpr::recognize("9"), Ok(Some(TimeExpr::Absolute(9, 0))));
    assert_eq!(TimeExpr::recognize("12am"), Ok(Some(TimeExpr::Absolute(12, 0))));
}

#[test]
fn noon_and_midnight() {
    assert_eq!(TimeExpr::recognize("noon"), Ok(Some(TimeExpr::Absolute(12, 0))));
    assert_eq!(TimeExpr::recognize("midnight"), Ok(Some(TimeExpr::Absolute(0, 0))));
    assert_eq!(
        TimeExpr::recognize("morning or evening"),
        Ok(Some(TimeExpr::Absolute(9, 0)))
    );
}

#[test]
fn slash_dates_are_not_times() {
    assert_eq!(TimeExpr::recognize("6/1"), Ok(None));
    assert_eq!(TimeExpr::recognize("Lunch 6/1 at 1pm"), Ok(Some(TimeExpr::Absolute(13, 0))));
    assert_eq!(TimeExpr::recognize("no time here"), Ok(None));
}

#[test]
fn malformed_clock_times() {
    assert_eq!(TimeExpr::recognize("25"), Err(TimeParseError::TimeBad));
    assert_eq!(TimeExpr::recognize("7:75"), Err(TimeParseError::TimeBad));
    assert_eq!(TimeExpr::recognize("25 at noon"), Ok(Some(TimeExpr::Absolute(12, 0))));
    assert_eq!(TimeParser::parse_relative("25", hm(1, 0)), None);
}

#[test]
fn absolute_time_ignores_reference() {
    assert_eq!(resolve_time(TimeExpr::Absolute(7, 45), hm(0, 0)), Ok(hm(7, 45)));
    assert_eq!(resolve_time(TimeExpr::Absolute(7, 45), hm(23, 59)), Ok(hm(7, 45)));
    assert_eq!(
        resolve_time(TimeExpr::Absolute(24, 0), hm(1, 0)),
        Err(TimeParseError::TimeBad)
    );
}

#[test]
fn relative_times_wrap() {
    assert_eq!(resolve_time(TimeExpr::InNHours(2), hm(10, 15)), Ok(hm(12, 15)));
    assert_eq!(resolve_time(TimeExpr::InNHours(3), hm(22, 30)), Ok(hm(1, 30)));
    assert_eq!(resolve_time(TimeExpr::InNMins(45), hm(23, 30)), Ok(hm(0, 15)));
    assert_eq!(TimeParser::parse_relative("in 10 minutes", hm(9, 55)), Some(hm(10, 5)));
    assert!(TimeParser::parse("6:30pm").is_some());
    assert_eq!(TimeParser::parse("6:30pm"), Some(hm(18, 30)));
}

#[test]
fn time_error_messages() {
    assert_eq!(TimeParseError::TimeBad.message(), "Error: Time bad format");
    assert_eq!(TimeParseError::TimeUnknown.message(), "Error: Time unknown");
    assert_eq!(TimeExpr::describe(), "time of day");
}

#[test]
fn checked_time_parsing() {
    assert_eq!(TimeParser::parse_checked("at 5", hm(9, 0)), Ok(hm(17, 0)));
    assert_eq!(
        TimeParser::parse_checked("whenever", hm(9, 0)),
        Err(TimeParseError::TimeUnknown)
    );
    assert_eq!(
        TimeParser::parse_checked("99", hm(9, 0)),
        Err(TimeParseError::TimeBad)
    );
}
