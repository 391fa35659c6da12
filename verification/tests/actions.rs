use vendor_timers::clock::Timestamp;
use vendor_timers::state::VendorApp;

const NOW: Timestamp = Timestamp { unix_nanos: 1_700_000_000_000_000_000 };

fn at(seconds: i128) -> Timestamp {
    Timestamp { unix_nanos: NOW.unix_nanos + seconds * 1_000_000_000 }
}

fn with_vendors(names: &[&str]) -> VendorApp {
    let mut app = VendorApp::new(None);
    for name in names {
        app.draft_name = name.to_string();
        app.draft_money = 100;
        app.add_vendor();
    }
    app.dirty = false;
    app
}

#[test]
fn only_changes_are_saved() {
    let mut app = VendorApp::new(None);
    assert_eq!(app.save_if_dirty(Some("{}".to_string())), None);
    app.mark_dirty();
    assert_eq!(app.save_if_dirty(None), None);
    assert!(app.dirty);
    assert_eq!(app.save_if_dirty(Some("{}".to_string())), Some("{}".to_string()));
    assert!(!app.dirty);
    assert_eq!(app.save_if_dirty(Some("{}".to_string())), None);
}

#[test]
fn calculated_minutes_become_the_usual_ones() {
    let mut app = VendorApp::new(None);
    app.calc_days = 2;
    app.calc_hours = 3;
    app.calc_minutes = 4;
    assert_eq!(app.calc_total(), 3064);
    app.set_default_from_calc();
    assert_eq!(app.persisted.default_reset_minutes, 3064);
    assert!(app.dirty);
    app.calc_days = 0;
    app.calc_hours = 0;
    app.calc_minutes = 0;
    assert_eq!(app.calc_total(), 0);
    app.set_default_from_calc();
    assert_eq!(app.persisted.default_reset_minutes, 1);
}

#[test]
fn log_path_is_taken_over() {
    let mut app = VendorApp::new(None);
    app.set_player_log_path("/x".to_string());
    assert_eq!(app.persisted.player_log_path, "/x");
    assert!(app.dirty);
}

#[test]
fn typed_vendor_is_added() {
    let mut app = VendorApp::new(None);
    app.draft_name = "  ".to_string();
    app.draft_money = 7;
    assert!(!app.can_add_vendor());
    app.add_vendor();
    assert!(app.persisted.vendors.is_empty());
    assert_eq!(app.draft_money, 7);
    assert!(!app.dirty);
    app.draft_name = " Raina ".to_string();
    assert!(app.can_add_vendor());
    app.add_vendor();
    assert_eq!(app.persisted.vendors.len(), 1);
    assert_eq!(app.persisted.vendors[0].name, "Raina");
    assert_eq!(app.persisted.vendors[0].money, 7);
    assert_eq!(app.persisted.vendors[0].max_money, Some(7));
    assert_eq!(app.persisted.vendors[0].max_money_buf, "");
    assert_eq!(app.draft_name, "");
    assert_eq!(app.draft_money, 0);
    assert!(app.dirty);
}

#[test]
fn vendors_are_removed() {
    let mut app = with_vendors(&["A", "B", "C"]);
    app.remove_vendor(1);
    assert_eq!(app.persisted.vendors.len(), 2);
    assert_eq!(app.persisted.vendors[0].name, "A");
    assert_eq!(app.persisted.vendors[1].name, "C");
    assert!(app.dirty);
    app.dirty = false;
    app.clear_vendors();
    assert!(app.persisted.vendors.is_empty());
    assert!(app.dirty);
}

#[test]
fn due_vendors_are_refilled() {
    let mut app = with_vendors(&["A", "B", "C"]);
    app.persisted.default_reset_minutes = 1;
    app.start_vendor_timer(0, NOW);
    app.start_vendor_timer(2, at(30));
    assert!(app.dirty);
    app.dirty = false;
    for v in app.persisted.vendors.iter_mut() {
        v.money = 1;
    }
    app.refill_due_vendors(at(59));
    assert!(!app.dirty);
    assert_eq!(app.persisted.vendors[0].money, 1);
    app.refill_due_vendors(at(60));
    assert!(app.dirty);
    assert_eq!(app.persisted.vendors[0].money, 100);
    assert_eq!(app.persisted.vendors[1].money, 1);
    assert_eq!(app.persisted.vendors[2].money, 1);
    app.dirty = false;
    app.persisted.vendors[0].money = 2;
    app.refill_due_vendors(at(60));
    assert!(!app.dirty);
    assert_eq!(app.persisted.vendors[0].money, 2);
    app.refill_due_vendors(at(90));
    assert_eq!(app.persisted.vendors[2].money, 100);
    assert!(app.dirty);
}

#[test]
fn timers_are_started_and_cleared() {
    let mut app = with_vendors(&["A", "B"]);
    app.persisted.vendors[1].money = 0;
    app.start_vendor_timer(1, NOW);
    assert_eq!(app.persisted.vendors[1].reset_at, Some(NOW.plus_minutes(10080)));
    assert_eq!(app.persisted.vendors[1].money, 0);
    assert_eq!(app.persisted.vendors[0].reset_at, None);
    app.set_vendor_override(1, true);
    assert_eq!(app.persisted.vendors[1].reset_period_minutes, Some(10080));
    app.persisted.vendors[1].reset_period_minutes = Some(5);
    app.reset_vendor(1, NOW);
    assert_eq!(app.persisted.vendors[1].reset_at, Some(at(300)));
    assert_eq!(app.persisted.vendors[1].money, 100);
    app.set_vendor_override(1, false);
    assert_eq!(app.persisted.vendors[1].reset_period_minutes, None);
    app.dirty = false;
    app.clear_vendor_timer(1);
    assert_eq!(app.persisted.vendors[1].reset_at, None);
    assert!(app.dirty);
}

#[test]
fn refilling_by_hand_is_no_reason_to_save() {
    let mut app = with_vendors(&["A"]);
    app.persisted.vendors[0].money = 0;
    app.refill_vendor(0);
    assert_eq!(app.persisted.vendors[0].money, 100);
    assert!(!app.dirty);
}

#[test]
fn most_money_is_synchronised() {
    let mut app = with_vendors(&["A"]);
    app.persisted.vendors[0].max_money_buf = "x".to_string();
    app.sync_vendor_max_money(0);
    assert!(!app.dirty);
    assert_eq!(app.persisted.vendors[0].max_money, Some(100));
    app.persisted.vendors[0].max_money_buf = "250".to_string();
    app.sync_vendor_max_money(0);
    assert!(app.dirty);
    assert_eq!(app.persisted.vendors[0].max_money, Some(250));
    app.persisted.vendors[0].max_money_buf = "".to_string();
    app.sync_vendor_max_money(0);
    assert_eq!(app.persisted.vendors[0].max_money, None);
}

#[test]
fn typed_tags_are_added() {
    let mut app = with_vendors(&["A"]);
    app.persisted.vendors[0].draft_buy = " Rings ".to_string();
    app.add_vendor_buy(0);
    assert!(app.dirty);
    assert_eq!(app.persisted.vendors[0].buys, vec!["armor", "Rings", "weapons"]);
    assert_eq!(app.persisted.vendors[0].draft_buy, "");
    app.dirty = false;
    app.persisted.vendors[0].draft_buy = "rings".to_string();
    app.add_vendor_buy(0);
    assert!(!app.dirty);
    assert_eq!(app.persisted.vendors[0].draft_buy, "");
    assert_eq!(app.persisted.vendors[0].buys.len(), 3);
    app.persisted.vendors[0].draft_like = "gems".to_string();
    app.add_vendor_like(0);
    assert_eq!(app.persisted.vendors[0].likes, vec!["gems"]);
    assert!(app.dirty);
}

#[test]
fn tags_are_removed_from_vendors() {
    let mut app = with_vendors(&["A"]);
    app.remove_vendor_buy(0, None);
    assert!(!app.dirty);
    app.remove_vendor_buy(0, Some(0));
    assert_eq!(app.persisted.vendors[0].buys, vec!["armor"]);
    assert!(app.dirty);
    app.dirty = false;
    app.clear_vendor_likes(0);
    assert!(!app.dirty);
    app.clear_vendor_buys(0);
    assert!(app.dirty);
    assert!(app.persisted.vendors[0].buys.is_empty());
    app.persisted.vendors[0].likes = vec!["a".to_string(), "b".to_string()];
    app.remove_vendor_like(0, Some(1));
    assert_eq!(app.persisted.vendors[0].likes, vec!["a"]);
    app.clear_vendor_likes(0);
    assert!(app.persisted.vendors[0].likes.is_empty());
}

#[test]
fn scrolling_waits_until_the_place_is_known() {
    let mut app = with_vendors(&["A"]);
    assert_eq!(app.take_scroll_target(5), None);
    app.scroll_to(3);
    assert_eq!(app.take_scroll_target(3), None);
    assert_eq!(app.scroll_to_vendor, Some(3));
    assert_eq!(app.take_scroll_target(4), Some(3));
    assert_eq!(app.scroll_to_vendor, None);
}

#[test]
fn overview_orders_vendors() {
    let mut app = with_vendors(&["none b", "late", "hidden", "ready", "none a", "soon", "late"]);
    let minutes = [None, Some(50), Some(1), Some(-3), None, Some(2), Some(50)];
    for i in 0..7 {
        app.persisted.vendors[i].reset_at = minutes[i].map(|m| at(60 * m));
    }
    app.persisted.vendors[2].show_in_compact = false;
    assert_eq!(app.compact_order(NOW), vec![3, 5, 1, 6, 4, 0]);
    app.persisted.vendors[1].name = "z".to_string();
    assert_eq!(app.compact_order(NOW), vec![3, 5, 6, 1, 4, 0]);
    assert_eq!(app.compact_order(at(3000)), vec![6, 3, 5, 1, 4, 0]);
}

#[test]
fn empty_overview() {
    assert!(VendorApp::new(None).compact_order(NOW).is_empty());
}
