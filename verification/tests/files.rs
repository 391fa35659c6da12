use vendor_timers::log_line::LogEvent;
use vendor_timers::paths::default_player_log_hint;
use vendor_timers::paths::default_player_log_path;
use vendor_timers::paths::default_save_path;
use vendor_timers::paths::expand_user_path;
use vendor_timers::paths::persistence_path;
use vendor_timers::paths::PathPlan;
use vendor_timers::state::VendorApp;
use vendor_timers::tail::parse_log_bytes;
use vendor_timers::tail::LogTail;
use vendor_timers::tail::WatcherAction;

fn written(path: &str) -> PathPlan {
    PathPlan::Written(path.to_string())
}

fn from_home(names: &[&str]) -> PathPlan {
    PathPlan::FromHome(names.iter().map(|s| s.to_string()).collect())
}

#[test]
fn typed_paths_are_expanded() {
    assert_eq!(expand_user_path("  ", true, true), written(""));
    assert_eq!(expand_user_path(" ~ ", true, true), from_home(&[]));
    assert_eq!(expand_user_path("~", false, true), written("~"));
    assert_eq!(expand_user_path("~/a/b", true, true), from_home(&["a/b"]));
    assert_eq!(expand_user_path("~/a/b", true, false), from_home(&["a/b"]));
    assert_eq!(expand_user_path("~/a/b", false, true), written("~/a/b"));
    assert_eq!(expand_user_path("~a", true, true), written("~a"));
    assert_eq!(expand_user_path(".config/x", true, true), from_home(&[".config", "x"]));
    assert_eq!(expand_user_path(".config/x", true, false), written(".config/x"));
    assert_eq!(expand_user_path(".config", true, true), written(".config"));
    assert_eq!(expand_user_path(" /var/log ", true, true), written("/var/log"));
}

#[test]
fn usual_place_of_the_log() {
    assert_eq!(
        default_player_log_path(true, true),
        Some(from_home(&[".config", "unity3d", "Elder Game", "Project Gorgon", "Player.log"]))
    );
    assert_eq!(
        default_player_log_path(true, false),
        Some(from_home(&["AppData", "LocalLow", "Elder Game", "Project Gorgon", "Player.log"]))
    );
    assert_eq!(default_player_log_path(false, true), None);
    assert_eq!(default_player_log_hint(None), "Path to Player.log");
    assert_eq!(default_player_log_hint(Some("/home/x/Player.log".to_string())), "/home/x/Player.log");
}

#[test]
fn own_files() {
    assert_eq!(default_save_path(), vec!["vendor_timers", "vendors.json"]);
    assert_eq!(persistence_path(), vec!["vendor_timers", "eframe_state.ron"]);
}

#[test]
fn bytes_of_the_log_are_read() {
    let bytes = b"caf\xc3\xa9\nLocalPlayer: ProcessVendorScreen(4, Gr\xc3\xb6\xc3\x9fe)\n";
    assert_eq!(
        parse_log_bytes(bytes),
        vec![LogEvent::VendorScreen { npc_id: 4, favor: Some("Größe".to_string()) }]
    );
    let broken = b"\xff\xfe\nLocalPlayer: ProcessVendorScreen(4, A\xff)";
    assert_eq!(
        parse_log_bytes(broken),
        vec![LogEvent::VendorScreen { npc_id: 4, favor: Some("A\u{fffd}".to_string()) }]
    );
    assert!(parse_log_bytes(b"").is_empty());
}

#[test]
fn growing_log_is_followed() {
    let mut tail = LogTail::start(Some(100));
    assert_eq!(tail.poll(100), None);
    assert_eq!(tail.poll(150), Some(100));
    assert_eq!(tail.poll(160), Some(100));
    assert!(tail.finish(160, b"nothing").is_empty());
    assert_eq!(tail.poll(160), None);
    assert_eq!(tail.poll(170), Some(160));
}

#[test]
fn replaced_log_is_read_from_its_start() {
    let mut tail = LogTail::start(None);
    assert_eq!(tail.offset, 0);
    assert_eq!(tail.poll(0), None);
    assert_eq!(tail.poll(9), Some(0));
    assert_eq!(tail.finish(9, b"LocalPlayer: ProcessVendorScreen(1)").len(), 1);
    assert_eq!(tail.poll(3), Some(0));
    assert_eq!(tail.offset, 0);
    tail.finish(3, b"");
    assert_eq!(tail.poll(0), None);
    assert_eq!(tail.offset, 0);
}

#[test]
fn log_is_followed_only_when_wanted() {
    let mut app = VendorApp::new(None);
    assert_eq!(app.ensure_watcher(true, true), WatcherAction::Stop);
    assert_eq!(app.ensure_watcher(false, false), WatcherAction::Stop);
    app.persisted.watch_player_log = true;
    assert_eq!(app.ensure_watcher(true, true), WatcherAction::Leave);
    assert_eq!(app.ensure_watcher(false, true), WatcherAction::Leave);
    assert!(app.player_log_missing(true));
    app.persisted.player_log_path = " ~/Player.log ".to_string();
    assert_eq!(app.ensure_watcher(false, false), WatcherAction::Leave);
    assert_eq!(app.ensure_watcher(false, true), WatcherAction::Start("~/Player.log".to_string()));
    assert_eq!(app.ensure_watcher(true, true), WatcherAction::Leave);
    assert!(!app.player_log_missing(true));
    assert!(app.player_log_missing(false));
}

#[test]
fn log_read_in_pieces_tells_the_same_events() {
    let first = "x\u{e9}\nLocalPlayer: ProcessVendorScreen(1, Friends)\r\n".as_bytes();
    let second = "LocalPlayer: ProcessVendorUpdateAvailableGold(5, 6, 7)".as_bytes();
    let whole: Vec<u8> = first.iter().chain(second).copied().collect();
    let mut events = parse_log_bytes(first);
    events.extend(parse_log_bytes(second));
    assert_eq!(events.len(), 2);
    assert_eq!(parse_log_bytes(&whole), events);
}
