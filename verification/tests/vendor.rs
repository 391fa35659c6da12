use vendor_timers::clock::Timestamp;
use vendor_timers::state::VendorApp;
use vendor_timers::vendor::TimerLabel;
use vendor_timers::vendor::Vendor;

const NOW: Timestamp = Timestamp { unix_nanos: 1_700_000_000_000_000_000 };

fn at(seconds: i128) -> Timestamp {
    Timestamp { unix_nanos: NOW.unix_nanos + seconds * 1_000_000_000 }
}

#[test]
fn new_vendors_are_neutral() {
    let v = Vendor::default();
    assert_eq!(v.name, "New vendor");
    assert_eq!(v.npc_key, None);
    assert_eq!(v.money, 0);
    assert_eq!(v.max_money, None);
    assert_eq!(v.buys, vec!["weapons", "armor"]);
    assert!(v.likes.is_empty());
    assert_eq!(v.favor_level, 5);
    assert_eq!(v.reset_at, None);
    assert_eq!(v.reset_period_minutes, None);
    assert!(!v.ready_refilled);
    assert_eq!(v.draft_buy, "");
    assert_eq!(v.draft_like, "");
    assert_eq!(v.max_money_buf, "");
    assert!(v.show_in_compact);
}

#[test]
fn minutes_between_resets() {
    let mut v = Vendor::default();
    assert_eq!(VendorApp::effective_reset_minutes(10080, &v), 10080);
    assert_eq!(VendorApp::effective_reset_minutes(0, &v), 1);
    assert_eq!(VendorApp::effective_reset_minutes(-3, &v), 1);
    v.reset_period_minutes = Some(60);
    assert_eq!(VendorApp::effective_reset_minutes(10080, &v), 60);
    v.reset_period_minutes = Some(-60);
    assert_eq!(VendorApp::effective_reset_minutes(10080, &v), 1);
}

#[test]
fn money_is_refilled_once_when_the_reset_comes() {
    let mut v = Vendor::default();
    v.money = 3;
    v.max_money = Some(500);
    v.start_timer(2, NOW);
    assert_eq!(v.reset_at, Some(at(120)));
    assert!(!v.refill_when_due(at(119)));
    assert_eq!(v.money, 3);
    assert!(v.refill_when_due(at(120)));
    assert_eq!(v.money, 500);
    assert!(v.ready_refilled);
    v.money = 10;
    assert!(!v.refill_when_due(at(500)));
    assert_eq!(v.money, 10);
    v.start_timer(2, at(500));
    assert!(!v.ready_refilled);
    assert!(!v.refill_when_due(at(619)));
    assert!(v.refill_when_due(at(620)));
    assert_eq!(v.money, 500);
}

#[test]
fn money_without_a_known_most_is_left_alone() {
    let mut v = Vendor::default();
    v.money = 3;
    v.refill_money();
    assert_eq!(v.money, 3);
    v.start_timer(1, NOW);
    assert!(v.refill_when_due(at(60)));
    assert_eq!(v.money, 3);
    assert!(v.ready_refilled);
}

#[test]
fn vendor_without_a_timer_is_never_due() {
    let mut v = Vendor::default();
    v.max_money = Some(5);
    assert!(!v.refill_when_due(NOW));
    assert_eq!(v.money, 0);
    assert!(!v.ready_refilled);
}

#[test]
fn timer_can_be_started_with_a_refill() {
    let mut v = Vendor::default();
    v.max_money = Some(40);
    v.ready_refilled = true;
    v.reset_period_minutes = Some(3);
    v.start_timer_and_refill(99, NOW);
    assert_eq!(v.reset_at, Some(at(180)));
    assert_eq!(v.money, 40);
    assert!(!v.ready_refilled);
    v.clear_timer();
    assert_eq!(v.reset_at, None);
}

#[test]
fn timers_beyond_the_years_of_dates_cannot_be_started() {
    let mut v = Vendor::default();
    assert!(VendorApp::can_start_timer(10080, &v, NOW));
    v.reset_period_minutes = Some(i64::MAX);
    assert!(!VendorApp::can_start_timer(10080, &v, NOW));
}

#[test]
fn override_starts_with_the_usual_minutes() {
    let mut v = Vendor::default();
    v.set_override(true, 600);
    assert_eq!(v.reset_period_minutes, Some(600));
    v.set_override(true, 0);
    assert_eq!(v.reset_period_minutes, Some(1));
    v.set_override(false, 600);
    assert_eq!(v.reset_period_minutes, None);
}

#[test]
fn typed_most_money_is_taken_over() {
    let mut v = Vendor::default();
    v.max_money_buf = " 1200 ".to_string();
    assert!(v.sync_max_money());
    assert_eq!(v.max_money, Some(1200));
    assert!(!v.max_money_unreadable());
    v.max_money_buf = "12x".to_string();
    assert!(!v.sync_max_money());
    assert_eq!(v.max_money, Some(1200));
    assert!(v.max_money_unreadable());
    v.max_money_buf = "  ".to_string();
    assert!(v.sync_max_money());
    assert_eq!(v.max_money, None);
    assert!(!v.max_money_unreadable());
}

#[test]
fn loaded_vendors_are_prepared() {
    let mut v = Vendor::default();
    v.draft_buy = "x".to_string();
    v.draft_like = "y".to_string();
    v.max_money = Some(-77);
    v.favor_level = 0;
    v.prepare_loaded();
    assert_eq!(v.draft_buy, "");
    assert_eq!(v.draft_like, "");
    assert_eq!(v.max_money_buf, "-77");
    assert_eq!(v.favor_level, 1);
    assert!(v.sync_max_money());
    assert_eq!(v.max_money, Some(-77));
    v.favor_level = 99;
    v.max_money = None;
    v.prepare_loaded();
    assert_eq!(v.max_money_buf, "");
    assert_eq!(v.favor_level, 11);
}

#[test]
fn timer_is_shown() {
    let mut v = Vendor::default();
    assert_eq!(v.timer_label(NOW), TimerLabel::Unset);
    v.reset_at = Some(at(3 * 86400 + 2 * 3600 + 61));
    assert_eq!(v.timer_label(NOW), TimerLabel::Running("3d 02h 01m".to_string()));
    v.reset_at = Some(Timestamp { unix_nanos: NOW.unix_nanos + 1 });
    assert_eq!(v.timer_label(NOW), TimerLabel::Running("0d 00h 00m".to_string()));
    v.reset_at = Some(NOW);
    assert_eq!(v.timer_label(NOW), TimerLabel::Ready("0d 00h 00m (ready)".to_string()));
    v.reset_at = Some(at(-1));
    assert_eq!(v.timer_label(NOW), TimerLabel::Ready("0d 00h 00m (ready)".to_string()));
}

#[test]
fn minutes_are_shown_in_the_overview() {
    assert_eq!(VendorApp::minutes_label(None), TimerLabel::Unset);
    assert_eq!(VendorApp::minutes_label(Some(0)), TimerLabel::Ready("0d 00h 00m".to_string()));
    assert_eq!(VendorApp::minutes_label(Some(61)), TimerLabel::Running("0d 01h 01m".to_string()));
    assert!(VendorApp::offers_reset(None));
    assert!(VendorApp::offers_reset(Some(0)));
    assert!(!VendorApp::offers_reset(Some(1)));
}
