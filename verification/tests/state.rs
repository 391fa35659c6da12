use vendor_timers::clock::Timestamp;
use vendor_timers::log_line::LogEvent;
use vendor_timers::log_state::VendorChange;
use vendor_timers::state::default_true;
use vendor_timers::state::Persisted;
use vendor_timers::state::VendorApp;
use vendor_timers::vendor::Vendor;

fn start(npc_id: i64, key: &str) -> LogEvent {
    LogEvent::StartInteraction { npc_id, npc_key: Some(key.to_string()) }
}

fn screen(npc_id: i64, favor: &str) -> LogEvent {
    LogEvent::VendorScreen { npc_id, favor: Some(favor.to_string()) }
}

fn gold(remaining: i64, reset_at_ms: i64, cap: i64) -> LogEvent {
    LogEvent::VendorGoldUpdate { remaining, reset_at_ms, cap }
}

fn kept(default_reset_minutes: i64) -> Persisted {
    let mut v = Vendor::default();
    v.favor_level = 40;
    v.max_money = Some(9);
    v.draft_buy = "x".to_string();
    Persisted {
        default_reset_minutes,
        player_log_path: "/tmp/Player.log".to_string(),
        watch_player_log: true,
        vendors: vec![v],
    }
}

#[test]
fn missing_flag_means_shown() {
    assert!(default_true());
}

#[test]
fn first_run_starts_empty() {
    let app = VendorApp::new(None);
    assert_eq!(app.persisted.default_reset_minutes, 7 * 24 * 60);
    assert_eq!(app.persisted.player_log_path, "");
    assert!(!app.persisted.watch_player_log);
    assert!(app.persisted.vendors.is_empty());
    assert!(!app.dirty);
    assert_eq!(app.draft_name, "");
    assert_eq!(app.draft_money, 0);
    assert_eq!((app.calc_days, app.calc_hours, app.calc_minutes), (0, 0, 0));
    assert_eq!(app.scroll_to_vendor, None);
    assert!(app.npc_id_to_key.is_empty());
    assert_eq!(app.last_vendor_npc_id, None);
}

#[test]
fn loaded_state_is_made_ready() {
    let app = VendorApp::new(Some(kept(-5)));
    assert_eq!(app.persisted.default_reset_minutes, 10080);
    assert_eq!(app.persisted.vendors[0].favor_level, 11);
    assert_eq!(app.persisted.vendors[0].max_money_buf, "9");
    assert_eq!(app.persisted.vendors[0].draft_buy, "");
    assert_eq!(app.persisted.player_log_path, "/tmp/Player.log");
    assert!(app.persisted.watch_player_log);
    let app = VendorApp::new(Some(kept(30)));
    assert_eq!(app.persisted.default_reset_minutes, 30);
}

#[test]
fn restored_state_replaces_the_loaded_one() {
    let mut app = VendorApp::new(None);
    app.draft_money = 4;
    app.restore(kept(0));
    assert_eq!(app.persisted.default_reset_minutes, 0);
    assert_eq!(app.persisted.vendors[0].favor_level, 11);
    assert_eq!(app.persisted.vendors[0].max_money_buf, "9");
    assert_eq!(app.draft_money, 4);
    assert!(!app.dirty);
}

#[test]
fn log_tells_a_vendor() {
    let mut app = VendorApp::new(None);
    app.apply_log_event(start(7, "NPC_Raina"));
    assert!(app.persisted.vendors.is_empty());
    assert!(!app.dirty);
    app.apply_log_event(screen(7, "CloseFriends"));
    app.apply_log_event(gold(12, 1_700_000_000_999, 3000));
    assert!(app.dirty);
    assert_eq!(app.persisted.vendors.len(), 1);
    let v = &app.persisted.vendors[0];
    assert_eq!(v.npc_key, Some("NPC_Raina".to_string()));
    assert_eq!(v.name, "Raina");
    assert_eq!(v.favor_level, 8);
    assert_eq!(v.money, 12);
    assert_eq!(v.max_money, Some(3000));
    assert_eq!(v.max_money_buf, "3000");
    assert_eq!(v.reset_at, Some(Timestamp { unix_nanos: 1_700_000_000_000_000_000 }));
    assert_eq!(v.buys, vec!["weapons", "armor"]);
}

#[test]
fn resets_that_cannot_be_read_keep_the_timer() {
    let mut app = VendorApp::new(None);
    app.apply_log_event(start(7, "K"));
    app.apply_log_event(screen(7, "?"));
    assert!(app.persisted.vendors.is_empty());
    app.apply_log_event(gold(1, 5000, 2));
    app.persisted.vendors[0].ready_refilled = true;
    for ms in [0, -1, i64::MIN, i64::MAX] {
        app.apply_log_event(gold(3, ms, 4));
        assert_eq!(app.persisted.vendors[0].money, 3);
        assert_eq!(
            app.persisted.vendors[0].reset_at,
            Some(Timestamp { unix_nanos: 5_000_000_000 })
        );
        assert!(app.persisted.vendors[0].ready_refilled);
    }
    app.apply_log_event(gold(3, 999, 4));
    assert_eq!(app.persisted.vendors[0].reset_at, Some(Timestamp { unix_nanos: 0 }));
    assert!(!app.persisted.vendors[0].ready_refilled);
}

#[test]
fn events_of_unknown_vendors_change_nothing() {
    let mut app = VendorApp::new(None);
    app.apply_log_event(gold(1, 2, 3));
    app.apply_log_event(screen(5, "Friends"));
    assert_eq!(app.last_vendor_npc_id, Some(5));
    app.apply_log_event(gold(1, 2, 3));
    app.apply_log_event(LogEvent::StartInteraction { npc_id: 5, npc_key: None });
    app.apply_log_event(gold(1, 2, 3));
    app.apply_log_event(LogEvent::VendorScreen { npc_id: 5, favor: None });
    assert!(app.persisted.vendors.is_empty());
    assert!(!app.dirty);
}

#[test]
fn last_opened_screen_tells_whose_money_changes() {
    let mut app = VendorApp::new(None);
    app.apply_log_event(start(1, "NPC_A"));
    app.apply_log_event(start(2, "NPC_B"));
    app.apply_log_event(screen(1, "Friends"));
    app.apply_log_event(screen(2, "Hated"));
    app.apply_log_event(gold(10, 0, 20));
    assert_eq!(app.persisted.vendors.len(), 2);
    assert_eq!(app.persisted.vendors[0].money, 0);
    assert_eq!(app.persisted.vendors[0].favor_level, 7);
    assert_eq!(app.persisted.vendors[1].money, 10);
    assert_eq!(app.persisted.vendors[1].favor_level, 2);
    app.apply_log_event(start(2, "NPC_A"));
    app.apply_log_event(gold(30, 0, 40));
    assert_eq!(app.persisted.vendors.len(), 2);
    assert_eq!(app.persisted.vendors[0].money, 30);
    assert_eq!(app.persisted.vendors[1].money, 10);
}

#[test]
fn change_goes_to_the_first_vendor_with_the_key() {
    let mut app = VendorApp::new(None);
    app.upsert_vendor_by_key("K", VendorChange::Favor(3));
    app.upsert_vendor_by_key("L", VendorChange::Favor(4));
    app.upsert_vendor_by_key("K", VendorChange::Favor(9));
    assert_eq!(app.persisted.vendors.len(), 2);
    assert_eq!(app.persisted.vendors[0].favor_level, 9);
    assert_eq!(app.persisted.vendors[1].favor_level, 4);
    assert!(app.dirty);
}

#[test]
fn prefix_of_characters_is_no_part_of_the_name() {
    assert_eq!(VendorApp::strip_npc_prefix("NPC_Raina"), "Raina");
    assert_eq!(VendorApp::strip_npc_prefix("Raina"), "Raina");
    assert_eq!(VendorApp::strip_npc_prefix("NPC_"), "");
    assert_eq!(VendorApp::strip_npc_prefix("NPC_NPC_X"), "NPC_X");
    assert_eq!(VendorApp::strip_npc_prefix("N"), "N");
}

#[test]
fn keys_stay_distinct() {
    let mut app = VendorApp::new(None);
    app.apply_log_event(start(1, "NPC_A"));
    app.apply_log_event(start(2, "NPC_A"));
    for npc_id in [1, 2, 1] {
        app.apply_log_event(screen(npc_id, "Friends"));
        app.apply_log_event(gold(npc_id, 0, 9));
    }
    app.draft_name = "NPC_A".to_string();
    app.add_vendor();
    assert_eq!(app.persisted.vendors.len(), 2);
    assert_eq!(app.persisted.vendors[0].npc_key, Some("NPC_A".to_string()));
    assert_eq!(app.persisted.vendors[0].money, 1);
    assert_eq!(app.persisted.vendors[1].npc_key, None);
}

#[test]
fn typed_texts_do_not_outlive_a_run() {
    let mut p = kept(30);
    p.vendors[0].max_money_buf = "nonsense".to_string();
    p.vendors[0].draft_like = "y".to_string();
    let app = VendorApp::new(Some(p));
    assert_eq!(app.persisted.vendors[0].max_money_buf, "9");
    assert_eq!(app.persisted.vendors[0].draft_like, "");
    assert_eq!(app.persisted.vendors[0].max_money, Some(9));
    assert_eq!(app.persisted.vendors[0].name, "New vendor");
}
