use time::OffsetDateTime;
use vendor_timers::clock::Span;
use vendor_timers::clock::Timestamp;
use vendor_timers::clock::MAX_NANOS;
use vendor_timers::clock::MAX_SECONDS;
use vendor_timers::clock::MIN_NANOS;
use vendor_timers::clock::MIN_SECONDS;
use vendor_timers::state::VendorApp;

const NOW: Timestamp = Timestamp { unix_nanos: 1_700_000_000_123_456_789 };

fn later(nanos: i128) -> Option<Timestamp> {
    Some(Timestamp { unix_nanos: NOW.unix_nanos + nanos })
}

#[test]
fn seconds_give_instants_within_the_years_of_dates() {
    assert_eq!(
        Timestamp::from_unix_seconds(1_546_300_800),
        Some(Timestamp { unix_nanos: 1_546_300_800_000_000_000 })
    );
    assert_eq!(
        Timestamp::from_unix_seconds(MAX_SECONDS),
        Some(Timestamp { unix_nanos: 253_402_300_799_000_000_000 })
    );
    assert_eq!(Timestamp::from_unix_seconds(MAX_SECONDS + 1), None);
    assert_eq!(
        Timestamp::from_unix_seconds(MIN_SECONDS),
        Some(Timestamp { unix_nanos: MIN_NANOS })
    );
    assert_eq!(Timestamp::from_unix_seconds(MIN_SECONDS - 1), None);
    assert_eq!(Timestamp::from_unix_seconds(i64::MAX), None);
}

#[test]
fn limits_are_those_of_dates() {
    assert!(OffsetDateTime::from_unix_timestamp_nanos(MIN_NANOS).is_ok());
    assert!(OffsetDateTime::from_unix_timestamp_nanos(MIN_NANOS - 1).is_err());
    assert!(OffsetDateTime::from_unix_timestamp_nanos(MAX_NANOS).is_ok());
    assert!(OffsetDateTime::from_unix_timestamp_nanos(MAX_NANOS + 1).is_err());
    assert_eq!(Timestamp::from_unix_nanos(MAX_NANOS), Some(Timestamp { unix_nanos: MAX_NANOS }));
    assert_eq!(Timestamp::from_unix_nanos(MAX_NANOS + 1), None);
    assert_eq!(Timestamp::from_unix_nanos(MIN_NANOS - 1), None);
}

#[test]
fn present_instant_lies_after_the_start_of_2024() {
    assert!(Timestamp::now().unix_nanos > 1_704_067_200_000_000_000);
    assert!(Timestamp::now().unix_nanos <= MAX_NANOS);
}

#[test]
fn minutes_are_added_to_instants() {
    assert_eq!(NOW.plus_minutes(10080).unix_nanos, 1_700_604_800_123_456_789);
    assert_eq!(NOW.plus_minutes(0), NOW);
    assert_eq!(NOW.plus_minutes(-1).unix_nanos, 1_699_999_940_123_456_789);
    assert!(NOW.can_add_minutes(10080));
    assert!(!NOW.can_add_minutes(i64::MAX));
    assert!(!NOW.can_add_minutes(i64::MIN));
    let last = Timestamp { unix_nanos: MAX_NANOS };
    assert!(last.can_add_minutes(0));
    assert!(!last.can_add_minutes(1));
    let near = Timestamp { unix_nanos: MAX_NANOS - 60_000_000_000 };
    assert!(near.can_add_minutes(1));
    assert_eq!(near.plus_minutes(1), last);
}

#[test]
fn instants_differ_by_spans() {
    let first = Timestamp { unix_nanos: MIN_NANOS };
    let last = Timestamp { unix_nanos: MAX_NANOS };
    assert_eq!(last.since(first), Span { nanos: MAX_NANOS - MIN_NANOS });
    assert_eq!(first.since(last), Span { nanos: MIN_NANOS - MAX_NANOS });
    assert_eq!(NOW.since(NOW), Span { nanos: 0 });
    assert_eq!(later(5).unwrap().since(NOW), Span { nanos: 5 });
}

#[test]
fn time_left_stops_at_zero() {
    assert_eq!(VendorApp::remaining_clamped_at(None, NOW), None);
    assert_eq!(VendorApp::remaining_clamped_at(later(0), NOW), Some(Span { nanos: 0 }));
    assert_eq!(VendorApp::remaining_clamped_at(later(-1), NOW), Some(Span { nanos: 0 }));
    assert_eq!(VendorApp::remaining_clamped_at(later(7), NOW), Some(Span { nanos: 7 }));
    let much_later = Timestamp { unix_nanos: NOW.unix_nanos + 1_000_000_000_000 };
    assert_eq!(VendorApp::remaining_clamped_at(later(7), much_later), Some(Span { nanos: 0 }));
}

#[test]
fn minutes_left_are_whole_and_stop_at_zero() {
    assert_eq!(VendorApp::remaining_minutes_clamped_at(None, NOW), None);
    assert_eq!(VendorApp::remaining_minutes_clamped_at(later(59_999_999_999), NOW), Some(0));
    assert_eq!(VendorApp::remaining_minutes_clamped_at(later(60_000_000_000), NOW), Some(1));
    assert_eq!(VendorApp::remaining_minutes_clamped_at(later(-600_000_000_000), NOW), Some(0));
    let started = Some(NOW.plus_minutes(90));
    assert_eq!(VendorApp::remaining_minutes_clamped_at(started, NOW), Some(90));
}

#[test]
fn time_left_now_is_read_from_the_clock() {
    assert_eq!(VendorApp::remaining_clamped(None), None);
    assert_eq!(VendorApp::remaining_minutes_clamped(None), None);
    let past = Some(Timestamp { unix_nanos: 0 });
    assert_eq!(VendorApp::remaining_clamped(past), Some(Span { nanos: 0 }));
    assert_eq!(VendorApp::remaining_minutes_clamped(past), Some(0));
    let future = Some(Timestamp::now().plus_minutes(1000));
    let minutes = VendorApp::remaining_minutes_clamped(future).unwrap();
    assert!(990 <= minutes && minutes <= 1000);
    let span = VendorApp::remaining_clamped(future).unwrap();
    assert!(span.nanos > 990 * 60_000_000_000 && span.nanos <= 1000 * 60_000_000_000);
}

#[test]
fn time_is_shown_as_days_hours_and_minutes() {
    assert_eq!(VendorApp::fmt_d_h_m_from_minutes(0), "0d 00h 00m");
    assert_eq!(VendorApp::fmt_d_h_m_from_minutes(-5), "0d 00h 00m");
    assert_eq!(VendorApp::fmt_d_h_m_from_minutes(59), "0d 00h 59m");
    assert_eq!(VendorApp::fmt_d_h_m_from_minutes(10080), "7d 00h 00m");
    assert_eq!(VendorApp::fmt_d_h_m_from_minutes(1440 * 12 + 60 * 23 + 4), "12d 23h 04m");
    assert_eq!(
        VendorApp::fmt_d_h_m_from_minutes(i64::MAX),
        "6405119470038038d 18h 07m"
    );
    assert_eq!(VendorApp::fmt_d_h_m(Span { nanos: 3_723_999_999_999 }), "0d 01h 02m");
    assert_eq!(VendorApp::fmt_d_h_m(Span { nanos: -3_723_000_000_000 }), "0d 00h 00m");
    let longest = Span { nanos: 9_223_372_036_854_775_807_999_999_999 };
    assert_eq!(VendorApp::fmt_d_h_m(longest), "106751991167300d 15h 30m");
}
