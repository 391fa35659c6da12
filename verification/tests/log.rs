use vendor_timers::log_line::parse_log_line;
use vendor_timers::log_line::parse_log_text;
use vendor_timers::log_line::parse_start_interaction;
use vendor_timers::log_line::parse_vendor_screen;
use vendor_timers::log_line::parse_vendor_update_gold;
use vendor_timers::log_line::LogEvent;

fn start(npc_id: i64, npc_key: Option<&str>) -> Option<LogEvent> {
    Some(LogEvent::StartInteraction { npc_id, npc_key: npc_key.map(|k| k.to_string()) })
}

fn screen(npc_id: i64, favor: Option<&str>) -> Option<LogEvent> {
    Some(LogEvent::VendorScreen { npc_id, favor: favor.map(|k| k.to_string()) })
}

fn gold(remaining: i64, reset_at_ms: i64, cap: i64) -> Option<LogEvent> {
    Some(LogEvent::VendorGoldUpdate { remaining, reset_at_ms, cap })
}

#[test]
fn start_of_an_interaction_is_read() {
    let line = "[10:00:00] LocalPlayer: ProcessStartInteraction(12345, 7, 0, False, \"NPC_Raina\")";
    assert_eq!(parse_log_line(line), start(12345, Some("NPC_Raina")));
    assert_eq!(parse_start_interaction(line), start(12345, Some("NPC_Raina")));
    let line = "LocalPlayer: ProcessStartInteraction(-7, \"\")";
    assert_eq!(parse_log_line(line), start(-7, None));
    let line = "LocalPlayer: ProcessStartInteraction( +9 )";
    assert_eq!(parse_log_line(line), start(9, None));
    let line = "LocalPlayer: ProcessStartInteraction(9, \" NPC_Open )";
    assert_eq!(parse_log_line(line), start(9, Some("NPC_Open")));
}

#[test]
fn unreadable_interactions_give_nothing() {
    assert_eq!(parse_log_line("LocalPlayer: ProcessStartInteraction(abc, \"NPC_X\")"), None);
    assert_eq!(parse_log_line("LocalPlayer: ProcessStartInteraction(5, \"NPC_X\""), None);
    assert_eq!(parse_log_line("LocalPlayer: ProcessStartInteraction()"), None);
    assert_eq!(parse_start_interaction("LocalPlayer: ProcessVendorScreen(5, Friends)"), None);
    let big = "LocalPlayer: ProcessStartInteraction(9223372036854775808, \"NPC_X\")";
    assert_eq!(parse_log_line(big), None);
}

#[test]
fn vendor_screens_are_read() {
    let line = "x LocalPlayer: ProcessVendorScreen(42, CloseFriends, 1000, 17) y)";
    assert_eq!(parse_log_line(line), screen(42, Some("CloseFriends")));
    assert_eq!(parse_vendor_screen(line), screen(42, Some("CloseFriends")));
    assert_eq!(parse_log_line("LocalPlayer: ProcessVendorScreen(42)"), screen(42, None));
    assert_eq!(parse_log_line("LocalPlayer: ProcessVendorScreen(42,)"), screen(42, Some("")));
    assert_eq!(parse_log_line("LocalPlayer: ProcessVendorScreen(, Friends)"), None);
    assert_eq!(parse_vendor_screen("nothing"), None);
}

#[test]
fn changes_of_money_are_read() {
    let line = "LocalPlayer: ProcessVendorUpdateAvailableGold(1234, 1766089999000, 5000)";
    assert_eq!(parse_log_line(line), gold(1234, 1766089999000, 5000));
    assert_eq!(parse_vendor_update_gold(line), gold(1234, 1766089999000, 5000));
    let line = "LocalPlayer: ProcessVendorUpdateAvailableGold(1,-2,3,4)";
    assert_eq!(parse_log_line(line), gold(1, -2, 3));
    let line = "LocalPlayer: ProcessVendorUpdateAvailableGold(1, 2)";
    assert_eq!(parse_log_line(line), None);
    let line = "LocalPlayer: ProcessVendorUpdateAvailableGold(1, x, 3)";
    assert_eq!(parse_log_line(line), None);
    assert_eq!(parse_vendor_update_gold(""), None);
}

#[test]
fn first_kind_of_call_decides() {
    let line = "LocalPlayer: ProcessVendorScreen(1, Friends) LocalPlayer: ProcessStartInteraction(2, \"K\")";
    assert_eq!(parse_log_line(line), start(2, Some("K")));
    let line = "LocalPlayer: ProcessVendorScreen(1, Friends) LocalPlayer: ProcessStartInteraction(";
    assert_eq!(parse_log_line(line), None);
    let line = "LocalPlayer: ProcessStartInteraction(1) LocalPlayer: ProcessStartInteraction(2)";
    assert_eq!(parse_log_line(line), start(1, None));
}

#[test]
fn other_lines_give_nothing() {
    assert_eq!(parse_log_line(""), None);
    assert_eq!(parse_log_line("LocalPlayer: ProcessSomethingElse(1, 2)"), None);
    assert_eq!(parse_log_line("LocalPlayer: ProcessVendorScreen"), None);
}

#[test]
fn text_before_a_call_may_hold_letters_of_any_width() {
    let line = "äöü €\u{1f600} LocalPlayer: ProcessVendorScreen(3, Größe)";
    assert_eq!(parse_log_line(line), screen(3, Some("Größe")));
}

#[test]
fn lines_of_a_text_give_events_in_order() {
    let text = "noise\r\nLocalPlayer: ProcessStartInteraction(1, \"A\")\r\n\nLocalPlayer: ProcessVendorScreen(1, Hated)\nLocalPlayer: ProcessVendorUpdateAvailableGold(5, 0, 6)";
    let events = parse_log_text(text);
    assert_eq!(events.len(), 3);
    assert_eq!(Some(events[0].clone()), start(1, Some("A")));
    assert_eq!(Some(events[1].clone()), screen(1, Some("Hated")));
    assert_eq!(Some(events[2].clone()), gold(5, 0, 6));
}

#[test]
fn pieces_of_a_text_give_the_same_events() {
    let a = "LocalPlayer: ProcessStartInteraction(1, \"A\")\nx\r\n";
    let b = "LocalPlayer: ProcessVendorScreen(1, Hated)\n";
    let mut whole = a.to_string();
    whole.push_str(b);
    let mut pieces = parse_log_text(a);
    pieces.extend(parse_log_text(b));
    assert_eq!(parse_log_text(&whole), pieces);
}

#[test]
fn written_lines_read_back() {
    for n in [0, 17, -17, i64::MAX, i64::MIN] {
        let line = format!("p LocalPlayer: ProcessVendorUpdateAvailableGold({n}, {n}, {n}) q");
        assert_eq!(parse_log_line(&line), gold(n, n, n));
        let line = format!("p LocalPlayer: ProcessVendorScreen({n}, Friends, 1) q");
        assert_eq!(parse_log_line(&line), screen(n, Some("Friends")));
        let line = format!("p LocalPlayer: ProcessStartInteraction({n}, 7, \"NPC_A\") q");
        assert_eq!(parse_log_line(&line), start(n, Some("NPC_A")));
    }
}
