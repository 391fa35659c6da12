use vendor_timers::order::stable_order;
use vendor_timers::order::SortKey;
use vendor_timers::state::VendorApp;
use vendor_timers::tags::sort_by_keys;

fn strings(list: &[&str]) -> Vec<String> {
    list.iter().map(|s| s.to_string()).collect()
}

fn key(minutes: Option<i64>, text: &str) -> SortKey {
    SortKey { minutes, text: text.to_string() }
}

#[test]
fn tags_are_trimmed() {
    assert_eq!(VendorApp::normalize_tag("  rings \t"), "rings");
    assert_eq!(VendorApp::normalize_tag(" \n"), "");
}

#[test]
fn tag_is_added_in_order() {
    let mut list = strings(&["weapons", "armor"]);
    assert!(VendorApp::add_unique(&mut list, " Rings ".to_string()));
    assert_eq!(list, strings(&["armor", "Rings", "weapons"]));
    assert!(VendorApp::add_unique(&mut list, "Zinc".to_string()));
    assert!(VendorApp::add_unique(&mut list, "apples".to_string()));
    assert_eq!(list, strings(&["apples", "armor", "Rings", "weapons", "Zinc"]));
}

#[test]
fn blank_tag_is_not_added() {
    let mut list = strings(&["weapons", "armor"]);
    assert!(!VendorApp::add_unique(&mut list, "".to_string()));
    assert!(!VendorApp::add_unique(&mut list, " \u{3000}\t".to_string()));
    assert_eq!(list, strings(&["weapons", "armor"]));
}

#[test]
fn tag_is_not_added_twice() {
    let mut list: Vec<String> = Vec::new();
    assert!(VendorApp::add_unique(&mut list, "Gems".to_string()));
    assert!(!VendorApp::add_unique(&mut list, "gEMS ".to_string()));
    assert!(!VendorApp::add_unique(&mut list, "Gems".to_string()));
    assert_eq!(list, strings(&["Gems"]));
}

#[test]
fn lower_case_of_all_letters_counts_for_the_order() {
    let mut list = strings(&["Äpfel", "zebra"]);
    assert!(VendorApp::add_unique(&mut list, "äpfel".to_string()));
    assert_eq!(list, strings(&["zebra", "Äpfel", "äpfel"]));
    assert!(VendorApp::add_unique(&mut list, "Öl".to_string()));
    assert!(VendorApp::add_unique(&mut list, "ÄZ".to_string()));
    assert_eq!(list, strings(&["zebra", "Äpfel", "äpfel", "ÄZ", "Öl"]));
}

#[test]
fn sorting_by_keys_is_stable() {
    let items = strings(&["c", "a", "b", "d"]);
    let keys = strings(&["2", "1", "1", "0"]);
    assert_eq!(sort_by_keys(&items, &keys), strings(&["d", "a", "b", "c"]));
    assert_eq!(sort_by_keys(&Vec::new(), &Vec::new()), strings(&[]));
}

#[test]
fn keys_order_by_minutes_then_text() {
    let keys = vec![
        key(None, "a"),
        key(Some(5), "z"),
        key(Some(0), "m"),
        key(Some(5), "b"),
        key(None, "a"),
        key(Some(0), "m"),
        key(Some(-1), "x"),
    ];
    assert_eq!(stable_order(&keys), vec![6, 2, 5, 3, 1, 0, 4]);
}

#[test]
fn chips_are_removed() {
    let mut list = strings(&["a", "b", "c"]);
    let mut dirty = false;
    VendorApp::chip_list(&mut list, None, &mut dirty);
    assert_eq!(list, strings(&["a", "b", "c"]));
    assert!(!dirty);
    VendorApp::chip_list(&mut list, Some(1), &mut dirty);
    assert_eq!(list, strings(&["a", "c"]));
    assert!(dirty);
}

#[test]
fn lists_are_cleared() {
    let mut list: Vec<String> = Vec::new();
    let mut dirty = false;
    VendorApp::clear_tags(&mut list, &mut dirty);
    assert!(!dirty);
    list.push("a".to_string());
    VendorApp::clear_tags(&mut list, &mut dirty);
    assert!(dirty);
    assert!(list.is_empty());
}
