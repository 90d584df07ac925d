use chrono::{DateTime, Utc};
use mowz::time_range::{parse_time, RangeError, TimeError, Timestamp, MAX_UTC_SECS, MIN_UTC_SECS};
use mowz::TimeRange;

fn at(s: &str) -> Timestamp {
    let t = s.parse::<DateTime<Utc>>().unwrap();
    Timestamp { secs: t.timestamp(), nanos: t.timestamp_subsec_nanos() }
}

#[test]
fn resolves_relative_and_absolute_times() {
    let now = at("2026-08-19T12:00:00Z");

    assert_eq!(
        TimeRange::new("now-6h", "now-30m").resolve(now).unwrap(),
        (at("2026-08-19T06:00:00Z"), at("2026-08-19T11:30:00Z"))
    );
    assert_eq!(
        TimeRange::new("2026-08-18T12:00:00Z", "2026-08-19T12:00:00Z").resolve(now).unwrap(),
        (at("2026-08-18T12:00:00Z"), at("2026-08-19T12:00:00Z"))
    );
    assert_eq!(
        TimeRange::new("now", "now-1h").resolve(now).unwrap_err().message(),
        "--from must not be later than --to"
    );
}

#[test]
fn defaults_to_the_last_hour() {
    let range = TimeRange::default();
    assert_eq!(range.from(), "now-1h");
    assert_eq!(range.to(), "now");
}

#[test]
fn reads_every_unit_and_both_directions() {
    let now = at("2026-08-19T12:00:00Z");
    assert_eq!(parse_time("now", now), Ok(now));
    assert_eq!(parse_time("now-15s", now), Ok(at("2026-08-19T11:59:45Z")));
    assert_eq!(parse_time("now-2m", now), Ok(at("2026-08-19T11:58:00Z")));
    assert_eq!(parse_time("now+1d", now), Ok(at("2026-08-20T12:00:00Z")));
    assert_eq!(parse_time("now-1w", now), Ok(at("2026-08-12T12:00:00Z")));
    assert_eq!(parse_time("now-+1h", now), Ok(at("2026-08-19T11:00:00Z")));
    assert_eq!(parse_time("2026-08-19 10:00:00.5+02:00", now), Ok(Timestamp { secs: at("2026-08-19T08:00:00Z").secs, nanos: 500_000_000 }));
}

#[test]
fn rejects_malformed_relative_times() {
    let now = at("2026-08-19T12:00:00Z");
    assert_eq!(parse_time("now-", now), Err(TimeError::NotPositiveWholeNumber));
    assert_eq!(parse_time("now-h", now), Err(TimeError::NotPositiveWholeNumber));
    assert_eq!(parse_time("now-0m", now), Err(TimeError::NotPositiveWholeNumber));
    assert_eq!(parse_time("now--5m", now), Err(TimeError::NotPositiveWholeNumber));
    assert_eq!(parse_time("now-99999999999999999999m", now), Err(TimeError::NotPositiveWholeNumber));
    assert_eq!(parse_time("now-5y", now), Err(TimeError::UnknownUnit));
    assert_eq!(parse_time("now-9223372036854775807w", now), Err(TimeError::TooLarge));
    assert_eq!(parse_time("now-9223372036854776s", now), Err(TimeError::TooLarge));
    assert_eq!(parse_time("now-9223372036854775s", now), Err(TimeError::OutOfRange));
    assert_eq!(parse_time("yesterday", now), Err(TimeError::InvalidFormat));
    assert_eq!(TimeError::UnknownUnit.message(), "relative time unit must be one of s, m, h, d, or w");
}

#[test]
fn names_the_invalid_end_of_a_range() {
    let now = at("2026-08-19T12:00:00Z");
    let error = TimeRange::new("later", "now").resolve(now).unwrap_err();
    assert_eq!(error, RangeError::InvalidFrom { value: "later".to_owned(), error: TimeError::InvalidFormat });
    assert_eq!(error.message(), "invalid --from value \"later\"");
    let error = TimeRange::new("now", "now+5x").resolve(now).unwrap_err();
    assert_eq!(error.message(), "invalid --to value \"now+5x\"");
}

#[test]
fn matches_chronos_range_of_instants() {
    assert_eq!(DateTime::<Utc>::MIN_UTC.timestamp(), MIN_UTC_SECS);
    assert_eq!(DateTime::<Utc>::MAX_UTC.timestamp(), MAX_UTC_SECS);
    let near_end = Timestamp { secs: MAX_UTC_SECS - 10, nanos: 0 };
    assert_eq!(parse_time("now+10s", near_end), Ok(Timestamp { secs: MAX_UTC_SECS, nanos: 0 }));
    assert_eq!(parse_time("now+11s", near_end), Err(TimeError::OutOfRange));
    let near_start = Timestamp { secs: MIN_UTC_SECS + 10, nanos: 500 };
    assert_eq!(parse_time("now-10s", near_start), Ok(Timestamp { secs: MIN_UTC_SECS, nanos: 500 }));
    assert_eq!(parse_time("now-11s", near_start), Err(TimeError::OutOfRange));
}

#[test]
fn rejects_units_that_are_not_ascii() {
    let now = at("2026-08-19T12:00:00Z");
    assert_eq!(parse_time("now-5é", now), Err(TimeError::UnknownUnit));
    assert_eq!(parse_time("now+é", now), Err(TimeError::NotPositiveWholeNumber));
    let error = TimeRange::new("now-5é", "now").resolve(now).unwrap_err();
    assert_eq!(error, RangeError::InvalidFrom { value: "now-5é".to_owned(), error: TimeError::UnknownUnit });
}
