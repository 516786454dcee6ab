use coldtrace::timestamp::{run_id, stamp_with_millis, utc_run_timestamp, TimestampError, MAX_UNIX_SECONDS};

#[test]
fn timestamp_is_compact_utc_with_milliseconds() {
    assert_eq!(utc_run_timestamp(1782094875254).unwrap(), "20260622T022115.254Z");
    assert_eq!(utc_run_timestamp(0).unwrap(), "19700101T000000.000Z");
    assert_eq!(utc_run_timestamp(1_000_007).unwrap(), "19700101T001640.007Z");
}

#[test]
fn run_id_is_timestamp_dash_label() {
    assert_eq!(
        run_id(1782094875254, "torch-import").unwrap(),
        "20260622T022115.254Z-torch-import"
    );
    let id = run_id(1782094875254, "exit-seven").unwrap();
    assert!(id.ends_with("-exit-seven"));
}

#[test]
fn milliseconds_are_zero_padded() {
    assert_eq!(stamp_with_millis("D", 1234), "D.234Z");
    assert_eq!(stamp_with_millis("D", 5), "D.005Z");
    assert_eq!(stamp_with_millis("D", 1050), "D.050Z");
}

#[test]
fn start_times_beyond_the_calendar_are_refused() {
    assert_eq!(utc_run_timestamp(u128::MAX), Err(TimestampError::SecondsOverflow));
    let past_calendar = (MAX_UNIX_SECONDS as u128 + 1) * 1000;
    assert_eq!(utc_run_timestamp(past_calendar), Err(TimestampError::OutOfRange));
    assert_eq!(run_id(past_calendar, "x"), Err(TimestampError::OutOfRange));
    let last = MAX_UNIX_SECONDS as u128 * 1000 + 999;
    assert_eq!(utc_run_timestamp(last).unwrap(), "99991231T235959.999Z");
}

#[test]
fn timestamps_within_a_second_sort_by_millisecond() {
    let a = utc_run_timestamp(1782094875054).unwrap();
    let b = utc_run_timestamp(1782094875300).unwrap();
    assert!(a < b);
    assert_eq!(a.len(), 20);
    assert_eq!(&a[8..9], "T");
}
