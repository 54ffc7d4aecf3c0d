use swiss_transport_mcp::api::ojp::tags::{build_stop_call_time, delay_minutes, parse_ojp_datetime};
use swiss_transport_mcp::nl::{parse_datetime_input, parse_datetime_input_at};
use swiss_transport_mcp::service::when::{parse_datetime_value, parse_datetime_value_at};
use swiss_transport_mcp::time::{
    minutes_between, now_fixed, timestamp_to_fixed, to_zurich, FixedDateTime, LocalDateTime,
    MAX_DAY, MAX_SECONDS, MIN_DAY, MIN_SECONDS,
};

fn at(seconds: i64, offset: i32) -> FixedDateTime {
    FixedDateTime::new(seconds, 0, offset).expect("a time within the calendar")
}

fn parts(t: FixedDateTime) -> (i64, u32, i32) {
    (t.seconds(), t.nanos(), t.offset())
}

#[test]
fn times_lie_within_the_calendar() {
    assert!(FixedDateTime::new(MIN_SECONDS, 0, 0).is_some());
    assert!(FixedDateTime::new(MIN_SECONDS - 1, 0, 0).is_none());
    assert!(FixedDateTime::new(MAX_SECONDS, 999_999_999, 0).is_some());
    assert!(FixedDateTime::new(MAX_SECONDS + 1, 0, 0).is_none());
    assert!(FixedDateTime::new(0, 2_000_000_000, 0).is_none());
    assert!(FixedDateTime::new(0, 0, 86400).is_none());
    assert!(LocalDateTime::at(MIN_DAY, 0, 0).is_some());
    assert!(LocalDateTime::at(MAX_DAY + 1, 0, 0).is_none());
    assert!(LocalDateTime::at(0, 24, 0).is_none());
    assert!(LocalDateTime::at(0, 0, 60).is_none());
}

#[test]
fn limits_of_the_calendar_are_those_of_chrono() {
    assert_eq!(chrono::DateTime::<chrono::Utc>::MIN_UTC.timestamp(), MIN_SECONDS);
    assert_eq!(chrono::DateTime::<chrono::Utc>::MAX_UTC.timestamp(), MAX_SECONDS);
}

#[test]
fn reads_times_with_an_offset() {
    let t = parse_ojp_datetime("2026-04-27T10:57:00+02:00").expect("a time");
    assert_eq!(parts(t), (1777280220, 0, 7200));
    let u = parse_ojp_datetime("2026-04-27T08:57:00Z").expect("a time");
    assert_eq!(parts(u), (1777280220, 0, 7200));
    let v = parse_ojp_datetime("2026-01-15T11:00:00.25Z").expect("a time");
    assert_eq!(parts(v), (1768474800, 250_000_000, 3600));
    assert!(parse_ojp_datetime("soon").is_none());
}

#[test]
fn reads_times_on_the_clock_of_zurich() {
    let t = parse_ojp_datetime("2026-04-27T10:57:00").expect("a time");
    assert_eq!(parts(t), (1777280220, 0, 7200));
    let twice = parse_ojp_datetime("2026-10-25T02:30:00").expect("a time");
    assert_eq!(parts(twice), (1792888200, 0, 7200));
    assert!(parse_ojp_datetime("2026-03-29T02:30:00").is_none());
}

#[test]
fn counts_whole_minutes_towards_zero() {
    assert_eq!(minutes_between(at(119, 0), at(0, 3600)), 1);
    assert_eq!(minutes_between(at(0, 0), at(119, 0)), -1);
    assert_eq!(minutes_between(at(59, 0), at(0, 0)), 0);
    assert_eq!(delay_minutes(at(600, 0), at(0, 0)), 10);
}

#[test]
fn missing_time_of_a_call_is_taken_from_the_other() {
    let both = build_stop_call_time(Some(at(0, 0)), Some(at(300, 0))).expect("times");
    assert_eq!(both.delay_minutes, 5);
    let planned = build_stop_call_time(Some(at(60, 0)), None).expect("times");
    assert_eq!(planned.expected.seconds(), 60);
    assert_eq!(planned.delay_minutes, 0);
    let expected = build_stop_call_time(None, Some(at(60, 0))).expect("times");
    assert_eq!(expected.scheduled.seconds(), 60);
    assert!(build_stop_call_time(None, None).is_none());
}

#[test]
fn turns_timestamps_to_the_clock_of_zurich() {
    assert_eq!(timestamp_to_fixed(1777280220).map(parts), Some((1777280220, 0, 7200)));
    assert_eq!(timestamp_to_fixed(0).map(parts), Some((0, 0, 3600)));
    assert!(timestamp_to_fixed(i64::MAX as u64).is_none());
    assert_eq!(timestamp_to_fixed(u64::MAX).map(|t| t.seconds()), Some(-1));
}

#[test]
fn day_follows_the_offset() {
    assert_eq!(at(86399, 0).day(), 0);
    assert_eq!(at(86399, 1).day(), 1);
    assert_eq!(at(0, -1).day(), -1);
}

#[test]
fn current_time_is_told_in_zurich() {
    let now = now_fixed();
    assert_eq!(parts(to_zurich(now)), parts(now));
    assert!(now.offset() == 3600 || now.offset() == 7200);
}

#[test]
fn words_for_now_denote_now() {
    let now = at(1777280220, 7200);
    for word in [None, Some(""), Some("  "), Some("now"), Some(" Earliest ")] {
        assert_eq!(parts(parse_datetime_value_at(word, now).expect("now")), parts(now));
        assert_eq!(parts(parse_datetime_input_at(word, now).expect("now")), parts(now));
    }
    assert!(parse_datetime_value(None).is_ok());
    assert!(parse_datetime_input(Some("now")).is_ok());
}

#[test]
fn search_tells_times_in_zurich_and_words_keep_their_offset() {
    let now = at(0, 0);
    let text = Some("2026-04-27T08:57:00Z");
    assert_eq!(
        parts(parse_datetime_value_at(text, now).expect("a time")),
        (1777280220, 0, 7200)
    );
    assert_eq!(
        parts(parse_datetime_input_at(text, now).expect("a time")),
        (1777280220, 0, 0)
    );
}

#[test]
fn short_notations_are_understood() {
    let now = at(0, 0);
    for text in ["2026-04-27T10:57", "2026-04-27 10:57"] {
        assert_eq!(
            parts(parse_datetime_value_at(Some(text), now).expect("a time")),
            (1777280220, 0, 7200)
        );
        assert_eq!(
            parts(parse_datetime_input_at(Some(text), now).expect("a time")),
            (1777280220, 0, 7200)
        );
    }
}

#[test]
fn tomorrow_is_at_six_unless_told_otherwise() {
    let now = at(1777280220, 7200);
    let six = (1777348800, 0, 7200);
    let half_past_seven = (1777354200, 0, 7200);
    assert_eq!(parts(parse_datetime_value_at(Some("tomorrow"), now).expect("a time")), six);
    assert_eq!(parts(parse_datetime_input_at(Some("Tomorrow"), now).expect("a time")), six);
    assert_eq!(
        parts(parse_datetime_value_at(Some("tomorrow at 7:30"), now).expect("a time")),
        half_past_seven
    );
    assert_eq!(
        parts(parse_datetime_input_at(Some("tomorrow at 7:30"), now).expect("a time")),
        half_past_seven
    );
    assert_eq!(parts(parse_datetime_value_at(Some("tomorrow at 6pm"), now).expect("a time")), six);
}

#[test]
fn hours_and_minutes_stay_within_the_day() {
    let now = at(1777280220, 7200);
    let last = parts(parse_datetime_value_at(Some("tomorrow 99:99"), now).expect("a time"));
    assert_eq!(last, (1777348800 + 17 * 3600 + 59 * 60, 0, 7200));
}

#[test]
fn skipped_and_unknown_times_are_refused() {
    let now = at(0, 0);
    let search = |t| parse_datetime_value_at(Some(t), now).expect_err("no time").message;
    let words = |t| parse_datetime_input_at(Some(t), now).expect_err("no time").message;
    assert_eq!(
        search("2026-03-29T02:30"),
        "datetime is invalid in Europe/Zurich timezone: 2026-03-29 02:30:00"
    );
    assert_eq!(
        words("2026-03-29T02:30"),
        "datetime is invalid in Europe/Zurich timezone: 2026-03-29 02:30:00"
    );
    assert_eq!(search("next week"), "unsupported datetime value: next week");
    assert_eq!(words(" next week "), "unsupported datetime value: next week");
}

#[test]
fn there_is_no_tomorrow_after_the_last_day() {
    let now = at(MAX_SECONDS, 0);
    let error = parse_datetime_value_at(Some("tomorrow"), now).expect_err("no time");
    assert_eq!(error.message, "failed to compute tomorrow date");
}
