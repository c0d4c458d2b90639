use event_parser::calendar::{Date, DayOfWeek, MonthOfYear};
use event_parser::date_parse::{resolve_date, DateExpr, DateParseError, DateParser};
use event_parser::recognizable::Recognizable;

fn ymd(year: i32, month: u32, day: u32) -> Date {
    Date { year, month, day }
}

fn assert_recognize_in_month(text: &str, expected_m: MonthOfYear, expected_d: u32) {
    assert_eq!(
        DateExpr::recognize(text),
        Ok(Some(DateExpr::InMonth(expected_m, expected_d)))
    );
}

fn assert_recognize_in_year(text: &str, m: MonthOfYear, d: u32, y: i32) {
    assert_eq!(DateExpr::recognize(text), Ok(Some(DateExpr::InYear(m, d, y))));
}

fn assert_in_n_days(text: &str, n: i32) {
    assert_eq!(DateExpr::recognize(text), Ok(Some(DateExpr::InNDays(n))));
}

fn assert_day_in_n_weeks(text: &str, d: DayOfWeek, n: i8) {
    assert_eq!(DateExpr::recognize(text), Ok(Some(DateExpr::DayInNWeeks(n, d))));
}

fn assert_relative_month(text: &str, expected_n: i32) {
    assert_eq!(DateExpr::recognize(text), Ok(Some(DateExpr::InNMonths(expected_n))));
}

fn assert_recognize_month(text: &str, expected_m: MonthOfYear) {
    assert_eq!(MonthOfYear::recognize(text), Ok(Some(expected_m)));
}

fn assert_recognize_day(text: &str, expected_d: DayOfWeek) {
    assert_eq!(DayOfWeek::recognize(text), Ok(Some(expected_d)));
}

#[test]
fn date_parse_in_month_tests() {
    assert_recognize_in_month("06/05", MonthOfYear::Jun, 5);
    assert_recognize_in_month("6/5", MonthOfYear::Jun, 5);
    assert_recognize_in_month("6/15", MonthOfYear::Jun, 15);
    assert_recognize_in_month("12/15", MonthOfYear::Dec, 15);
    assert_recognize_in_month("12/6", MonthOfYear::Dec, 6);
}

#[test]
fn date_parse_in_year_tests() {
    assert_recognize_in_year("12/15/19", MonthOfYear::Dec, 15, 19);
    assert_recognize_in_year("12/15/2000", MonthOfYear::Dec, 15, 2000);
}

#[test]
fn date_parse_absolute_english_date_tests() {
    assert_recognize_in_month("Jun 15", MonthOfYear::Jun, 15);
    assert_recognize_in_month("June 5th", MonthOfYear::Jun, 5);
    assert_recognize_in_month("June 5", MonthOfYear::Jun, 5);
    assert_recognize_in_month("Jan 15", MonthOfYear::Jan, 15);
    assert_recognize_in_month("February 5th", MonthOfYear::Feb, 5);
    assert_recognize_in_month("May 25", MonthOfYear::May, 25);
}

#[test]
fn in_n_days_tests() {
    assert_in_n_days("Lunch in 6 days", 6);
    assert_in_n_days("Lunch in 1 day", 1);
    assert_in_n_days("Lunch in 300 days", 300);
}

#[test]
fn day_in_n_weeks() {
    assert_day_in_n_weeks("next thursday", DayOfWeek::Thu, 1);
    assert_day_in_n_weeks("last wed", DayOfWeek::Wed, -1);
    assert_day_in_n_weeks("this monday", DayOfWeek::Mon, 0);
    assert_day_in_n_weeks("next friday", DayOfWeek::Fri, 1);
}

#[test]
fn day_keywords() {
    assert_in_n_days("tomorrow", 1);
    assert_in_n_days("yesterday", -1);
    assert_in_n_days("today", 0);
}

#[test]
fn relative_month_tests() {
    assert_relative_month("in 4 months", 4);
    assert_relative_month("in 1 month", 1);
}

#[test]
fn next_month_tests() {
    assert_relative_month("next month", 1);
    assert_relative_month("this month", 0);
}

#[test]
fn date_parse_english_month_tests() {
    assert_recognize_month("summer in June", MonthOfYear::Jun);
    assert_recognize_month("mother's day in May", MonthOfYear::May);
    assert_recognize_month("back to school in August", MonthOfYear::Aug);
    assert_recognize_month("Lunch w/Julie apr", MonthOfYear::Apr);
    assert_recognize_month("octopus 8pm jul", MonthOfYear::Jul);
    assert_recognize_month("julie 7 jul 5", MonthOfYear::Jul);
}

#[test]
fn english_day_tests() {
    assert_recognize_day("this tuesday", DayOfWeek::Tue);
    assert_recognize_day("next wed", DayOfWeek::Wed);
    assert_recognize_day("this saturday", DayOfWeek::Sat);
    assert_recognize_day("sun after next", DayOfWeek::Sun);
}

#[test]
fn zero_and_one_day_offsets() {
    let d = ymd(2020, 6, 5);
    assert_eq!(resolve_date(DateExpr::InNDays(0), d), Ok(d));
    assert_eq!(resolve_date(DateExpr::InNDays(1), d), Ok(ymd(2020, 6, 6)));
    assert_eq!(resolve_date(DateExpr::InNDays(1), ymd(2020, 1, 31)), Ok(ymd(2020, 2, 1)));
    assert_eq!(resolve_date(DateExpr::InNDays(1), ymd(2020, 2, 28)), Ok(ymd(2020, 2, 29)));
    assert_eq!(resolve_date(DateExpr::InNDays(1), ymd(2019, 12, 31)), Ok(ymd(2020, 1, 1)));
    assert_eq!(resolve_date(DateExpr::InNDays(-1), ymd(2020, 3, 1)), Ok(ymd(2020, 2, 29)));
}

#[test]
fn many_days_ahead() {
    assert_eq!(
        resolve_date(DateExpr::InNDays(300), ymd(2020, 6, 5)),
        Ok(ymd(2021, 4, 1))
    );
    assert_eq!(
        resolve_date(DateExpr::InNDays(i32::MAX), ymd(2020, 6, 5)),
        Err(DateParseError::DateBad)
    );
}

#[test]
fn calendar_keywords() {
    assert_eq!(DateExpr::recognize("today"), Ok(Some(DateExpr::InNDays(0))));
    assert_eq!(DateExpr::recognize("tomorrow"), Ok(Some(DateExpr::InNDays(1))));
    assert_eq!(DateExpr::recognize("yesterday"), Ok(Some(DateExpr::InNDays(-1))));
    assert_eq!(DateExpr::recognize("TODAY at noon"), Ok(Some(DateExpr::InNDays(0))));
    assert_eq!(DateExpr::recognize("todays"), Ok(None));
}

#[test]
fn numeric_dates() {
    assert_eq!(
        DateExpr::recognize("6/15"),
        Ok(Some(DateExpr::InMonth(MonthOfYear::Jun, 15)))
    );
    assert_eq!(
        DateExpr::recognize("12/15/19"),
        Ok(Some(DateExpr::InYear(MonthOfYear::Dec, 15, 19)))
    );
    assert_eq!(
        DateExpr::recognize("party 123/4"),
        Err(DateParseError::DateBad)
    );
}

#[test]
fn month_name_with_ordinal() {
    assert_eq!(
        DateExpr::recognize("June 5th"),
        Ok(Some(DateExpr::InMonth(MonthOfYear::Jun, 5)))
    );
    assert_eq!(
        DateExpr::recognize("June 5"),
        Ok(Some(DateExpr::InMonth(MonthOfYear::Jun, 5)))
    );
    assert_eq!(
        DateExpr::recognize("december 24"),
        Ok(Some(DateExpr::InMonth(MonthOfYear::Dec, 24)))
    );
}

#[test]
fn malformed_month_number() {
    assert_eq!(DateExpr::recognize("13/45"), Err(DateParseError::DateBad));
    assert_eq!(DateExpr::recognize("13/45 tomorrow"), Ok(Some(DateExpr::InNDays(1))));
    assert_eq!(DateExpr::recognize("nothing here"), Ok(None));
}

#[test]
fn bare_weekday() {
    assert_eq!(
        DateExpr::recognize("Flight on saturday"),
        Ok(Some(DateExpr::DayInNWeeks(0, DayOfWeek::Sat)))
    );
    assert_eq!(
        DateExpr::recognize("next week friday"),
        Ok(Some(DateExpr::DayInNWeeks(0, DayOfWeek::Fri)))
    );
}

#[test]
fn weekday_offsets_from_wednesday() {
    let wednesday = ymd(2020, 6, 3);
    assert_eq!(
        resolve_date(DateExpr::DayInNWeeks(1, DayOfWeek::Thu), wednesday),
        Ok(ymd(2020, 6, 11))
    );
    assert_eq!(
        resolve_date(DateExpr::DayInNWeeks(0, DayOfWeek::Wed), wednesday),
        Ok(wednesday)
    );
    assert_eq!(
        resolve_date(DateExpr::DayInNWeeks(-1, DayOfWeek::Mon), wednesday),
        Ok(ymd(2020, 6, 1))
    );
    assert_eq!(
        resolve_date(DateExpr::DayInNWeeks(0, DayOfWeek::Sun), wednesday),
        Ok(ymd(2020, 6, 7))
    );
}

#[test]
fn month_offsets_roll_over() {
    assert_eq!(
        resolve_date(DateExpr::InNMonths(3), ymd(2020, 11, 15)),
        Ok(ymd(2021, 2, 15))
    );
    assert_eq!(
        resolve_date(DateExpr::InNMonths(1), ymd(2020, 1, 31)),
        Ok(ymd(2020, 2, 29))
    );
    assert_eq!(
        resolve_date(DateExpr::InNMonths(-1), ymd(2020, 1, 10)),
        Ok(ymd(2019, 12, 10))
    );
    assert_eq!(
        resolve_date(DateExpr::InNMonths(-14), ymd(2020, 3, 31)),
        Ok(ymd(2019, 1, 31))
    );
}

#[test]
fn invalid_calendar_dates() {
    let now = ymd(2021, 6, 5);
    assert_eq!(
        resolve_date(DateExpr::InMonth(MonthOfYear::Feb, 29), now),
        Err(DateParseError::DateBad)
    );
    assert_eq!(
        resolve_date(DateExpr::InMonth(MonthOfYear::Feb, 29), ymd(2020, 6, 5)),
        Ok(ymd(2020, 2, 29))
    );
    assert_eq!(
        resolve_date(DateExpr::InYear(MonthOfYear::Apr, 31, 2020), now),
        Err(DateParseError::DateBad)
    );
    assert_eq!(DateParser::parse_relative("2/30", now), None);
    assert_eq!(
        DateParser::parse_checked("2/30", now),
        Err(DateParseError::DateBad)
    );
    assert_eq!(
        DateParser::parse_checked("no date", now),
        Err(DateParseError::DateUnknown)
    );
}

#[test]
fn parse_relative_dates() {
    let now = ymd(2020, 6, 5);
    assert_eq!(DateParser::parse_relative("July 4", now), Some(ymd(2020, 7, 4)));
    assert_eq!(DateParser::parse_relative("tomorrow", now), Some(ymd(2020, 6, 6)));
    assert_eq!(DateParser::parse_relative("next friday", now), Some(ymd(2020, 6, 12)));
    assert_eq!(DateParser::parse_relative("in 2 months", now), Some(ymd(2020, 8, 5)));
    assert_eq!(DateParser::parse_relative("12/15/2000", now), Some(ymd(2000, 12, 15)));
    assert_eq!(DateParser::parse("12/15/2000"), Some(ymd(2000, 12, 15)));
    assert_eq!(DateParser::parse("nothing"), None);
}

#[test]
fn error_messages() {
    assert_eq!(DateParseError::DateBad.message(), "Error: Bad date");
    assert_eq!(DateParseError::DateUnknown.message(), "Error: Date unknown");
    assert_eq!(DateExpr::describe(), "date");
    assert_eq!(MonthOfYear::describe(), "month of year");
    assert_eq!(DayOfWeek::describe(), "day of week");
}

#[test]
fn bare_full_weekday_names() {
    assert_eq!(
        DateExpr::recognize("wednesday"),
        Ok(Some(DateExpr::DayInNWeeks(0, DayOfWeek::Wed)))
    );
    assert_eq!(
        DateExpr::recognize("Lunch Wednesday"),
        Ok(Some(DateExpr::DayInNWeeks(0, DayOfWeek::Wed)))
    );
    assert_eq!(DayOfWeek::recognize("see you wednesday"), Ok(Some(DayOfWeek::Wed)));
    assert_eq!(
        DateExpr::recognize("thursday"),
        Ok(Some(DateExpr::DayInNWeeks(0, DayOfWeek::Thu)))
    );
}
