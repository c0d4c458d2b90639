use event_parser::calendar::{Date, DateTime, TimeOfDay};
use event_parser::event::{build_event_span, summary, to_start_end_expr, EventStartAndEndExpr, EventTiming};
use event_parser::property::{parse_property, parse_property_date_only};

fn ymd(year: i32, month: u32, day: u32) -> Date {
    Date { year, month, day }
}

fn at(date: Date, hour: u32, minute: u32) -> DateTime {
    DateTime { date, time: TimeOfDay { hour, minute } }
}

fn reference() -> DateTime {
    at(ymd(2020, 6, 5), 10, 0)
}

fn time_today(h: u32, m: u32) -> DateTime {
    at(reference().date, h, m)
}

fn assert_to_event(input: &str, expected_start: DateTime, expected_end: DateTime) {
    let e = build_event_span(input, reference());
    assert_eq!(
        e.timing,
        EventTiming::Timed { start: expected_start, end: Some(expected_end) }
    );
}

fn assert_to_event_all_day(input: &str, now: DateTime, expected: Date) {
    let e = build_event_span(input, now);
    assert_eq!(e.timing, EventTiming::AllDay { first: expected, last: expected });
}

#[test]
fn lib_start_tests() {
    assert_to_event("Lunch at 1pm", time_today(13, 0), time_today(14, 0));
    assert_to_event("Lunch at 12:30pm", time_today(12, 30), time_today(13, 30));
    assert_to_event("Dinner at 7", time_today(19, 0), time_today(20, 0));
    assert_to_event("Lunch at 12pm", time_today(12, 0), time_today(13, 0));
    assert_to_event("Dinner at 7pm", time_today(19, 0), time_today(20, 0));
    assert_to_event("Flight at noon", time_today(12, 0), time_today(13, 0));
}

#[test]
fn starts_and_ends_tests() {
    assert_to_event("Lunch 1-2", time_today(13, 0), time_today(14, 0));
    assert_to_event("Dinner 7-9pm", time_today(19, 0), time_today(21, 0));
    assert_to_event("Lunch 11-1pm", time_today(11, 0), time_today(13, 0));
}

#[test]
fn starts_and_ends_with_date_tests() {
    let year = reference().date.year;
    assert_to_event(
        "Lunch 1-2pm 6/10",
        at(ymd(year, 6, 10), 13, 0),
        at(ymd(year, 6, 10), 14, 0),
    );
}

#[test]
fn lib_all_day_tests() {
    let year = reference().date.year;
    assert_to_event_all_day("America's Birthday 7/4", reference(), ymd(year, 7, 4));
    assert_to_event_all_day("America's Birthday July 4th", reference(), ymd(year, 7, 4));
}

#[test]
fn start_with_date_tests() {
    let year = reference().date.year;
    assert_to_event(
        "Lunch at 1pm 6/15",
        at(ymd(year, 6, 15), 13, 0),
        at(ymd(year, 6, 15), 14, 0),
    );
}

#[test]
fn all_day_starts_and_ends_tests() {
    let year = reference().date.year;
    let e = build_event_span("Welcome Week 9/1-9/8", reference());
    assert_eq!(
        e.timing,
        EventTiming::AllDay { first: ymd(year, 9, 1), last: ymd(year, 9, 8) }
    );
}

#[test]
fn get_summary_tests() {
    assert_eq!(summary("Lunch at noon next Friday"), Some("Lunch".to_owned()));
    assert_eq!(
        summary("Dinner with friends tomorrow"),
        Some("Dinner with friends".to_owned())
    );
    assert_eq!(summary("My Birthday April 5"), Some("My Birthday".to_owned()));
    assert_eq!(summary("April 5 My Birthday"), Some("My Birthday".to_owned()));
    assert_eq!(
        summary("6pm Next Friday Doctor's Appointment"),
        Some("Doctor's Appointment".to_owned())
    );
    assert_eq!(
        summary("6pm Doctor's Appointment Next Friday"),
        Some("Doctor's Appointment".to_owned())
    );
    assert_eq!(summary("Flight on saturday at noon"), Some("Flight".to_owned()));
    assert_eq!(summary("Senior Week 6/17-6/21"), Some("Senior Week".to_owned()));
}

#[test]
fn main_start_tests() {
    assert_to_event("Lunch at 1pm", time_today(13, 0), time_today(14, 0));
    assert_to_event("Lunch at 12:30pm", time_today(12, 30), time_today(13, 30));
    assert_to_event("Dinner at 7", time_today(19, 0), time_today(20, 0));
}

#[test]
fn main_all_day_tests() {
    let now = at(ymd(2019, 3, 1), 9, 0);
    assert_to_event_all_day("America's Birthday 7/4", now, ymd(2019, 7, 4));
}

#[test]
fn dinner_at_seven() {
    let e = build_event_span("Dinner at 7", reference());
    assert_eq!(
        e.timing,
        EventTiming::Timed {
            start: at(ymd(2020, 6, 5), 19, 0),
            end: Some(at(ymd(2020, 6, 5), 20, 0)),
        }
    );
    assert_eq!(e.summary, "Dinner");
}

#[test]
fn welcome_week_range() {
    let e = build_event_span("Welcome Week 9/1-9/8", reference());
    assert_eq!(
        e.timing,
        EventTiming::AllDay { first: ymd(2020, 9, 1), last: ymd(2020, 9, 8) }
    );
    assert_eq!(e.summary, "Welcome Week");
}

#[test]
fn lunch_range_with_date() {
    let e = build_event_span("Lunch 1-2pm 6/10", reference());
    assert_eq!(
        e.timing,
        EventTiming::Timed {
            start: at(ymd(2020, 6, 10), 13, 0),
            end: Some(at(ymd(2020, 6, 10), 14, 0)),
        }
    );
    assert_eq!(e.summary, "Lunch");
}

#[test]
fn gibberish_is_whole_day_today() {
    let e = build_event_span("gibberish text", reference());
    assert_eq!(
        e.timing,
        EventTiming::AllDay { first: ymd(2020, 6, 5), last: ymd(2020, 6, 5) }
    );
    assert_eq!(e.summary, "gibberish text");
    assert_eq!(to_start_end_expr("gibberish text", reference()), EventStartAndEndExpr::Unknown);
}

#[test]
fn late_start_ends_next_day() {
    let e = build_event_span("Party at 11:30pm 12/31", reference());
    assert_eq!(
        e.timing,
        EventTiming::Timed {
            start: at(ymd(2020, 12, 31), 23, 30),
            end: Some(at(ymd(2021, 1, 1), 0, 30)),
        }
    );
    assert_eq!(e.summary, "Party");
}

#[test]
fn start_end_shapes() {
    let now = reference();
    assert_eq!(
        to_start_end_expr("Dinner 7 to 9", now),
        EventStartAndEndExpr::StartsAndEnds(TimeOfDay { hour: 19, minute: 0 }, TimeOfDay { hour: 9, minute: 0 })
    );
    assert_eq!(
        to_start_end_expr("Lunch tomorrow", now),
        EventStartAndEndExpr::AllDay(ymd(2020, 6, 6))
    );
    assert_eq!(
        to_start_end_expr("Call in 2 hours", now),
        EventStartAndEndExpr::Starts(TimeOfDay { hour: 12, minute: 0 })
    );
    assert_eq!(summary(""), Some(String::new()));
    assert_eq!(summary("  at noon  "), Some(String::new()));
}

#[test]
fn property_values() {
    assert_eq!(parse_property("DTSTART:20200605T190000", "DTSTART"), "20200605T190000");
    assert_eq!(parse_property("  SUMMARY:Lunch \n", "SUMMARY"), "Lunch");
    assert_eq!(
        parse_property_date_only("DTSTART;VALUE=DATE:20200605", "DTSTART"),
        "20200605"
    );
}

#[test]
fn summary_drops_every_recognized_phrase() {
    assert_eq!(summary("Lunch in 6 days"), Some("Lunch".to_owned()));
    assert_eq!(summary("Call in 2 hours"), Some("Call".to_owned()));
    assert_eq!(summary("Dinner tonight"), Some("Dinner".to_owned()));
    assert_eq!(summary("Meeting thu 5pm"), Some("Meeting".to_owned()));
    assert_eq!(summary("Party yesterday"), Some("Party".to_owned()));
}

#[test]
fn summary_drops_full_weekday_names() {
    assert_eq!(summary("Standup Wednesday"), Some("Standup".to_owned()));
    assert_eq!(summary("Wednesday standup at 9"), Some("standup".to_owned()));
}

#[test]
fn property_values_after_multibyte_names() {
    assert_eq!(parse_property("ÉTÉ:plage", "ÉTÉ"), "plage");
    assert_eq!(parse_property("  X-NOTE:café ", "X-NOTE"), "café");
    assert_eq!(
        parse_property_date_only("ÉTÉ;VALUE=DATE:20200701", "ÉTÉ"),
        "20200701"
    );
}
