use vendor_timers::favor::clamp_level;
use vendor_timers::state::VendorApp;

const NAMES: [&str; 11] = [
    "Despised",
    "Hated",
    "Disliked",
    "Tolerated",
    "Neutral (starting)",
    "Comfortable",
    "Friends",
    "Close Friends",
    "Best Friends",
    "Like Family",
    "Soul Mates",
];

const WORDS: [&str; 11] = [
    "Despised",
    "Hated",
    "Disliked",
    "Tolerated",
    "Neutral",
    "Comfortable",
    "Friends",
    "CloseFriends",
    "BestFriends",
    "LikeFamily",
    "SoulMates",
];

#[test]
fn levels_have_names() {
    for level in 1u8..=11 {
        assert_eq!(VendorApp::favor_label(level), NAMES[level as usize - 1]);
    }
    assert_eq!(VendorApp::favor_label(0), "Despised");
    assert_eq!(VendorApp::favor_label(12), "Soul Mates");
    assert_eq!(VendorApp::favor_label(255), "Soul Mates");
}

#[test]
fn words_of_the_log_name_levels() {
    for level in 1u8..=11 {
        assert_eq!(VendorApp::favor_str_to_level(WORDS[level as usize - 1]), Some(level));
    }
    assert_eq!(VendorApp::favor_str_to_level(""), None);
    assert_eq!(VendorApp::favor_str_to_level("Close Friends"), None);
    assert_eq!(VendorApp::favor_str_to_level("friends"), None);
    assert_eq!(VendorApp::favor_str_to_level("Neutral (starting)"), None);
}

#[test]
fn levels_are_shown_with_their_names() {
    assert_eq!(VendorApp::favor_text(5), "5 (Neutral (starting))");
    assert_eq!(VendorApp::favor_text(0), "0 (Despised)");
    assert_eq!(VendorApp::favor_text(200), "200 (Soul Mates)");
    assert_eq!(VendorApp::legend_line(1), "1 = Despised");
    assert_eq!(VendorApp::legend_line(11), "11 = Soul Mates");
}

#[test]
fn levels_are_clamped() {
    assert_eq!(clamp_level(0), 1);
    assert_eq!(clamp_level(1), 1);
    assert_eq!(clamp_level(7), 7);
    assert_eq!(clamp_level(12), 11);
}
