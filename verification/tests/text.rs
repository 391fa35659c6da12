use vendor_timers::text::before;
use vendor_timers::text::chars_of;
use vendor_timers::text::contains;
use vendor_timers::text::eq_ignore_ascii_case;
use vendor_timers::text::find;
use vendor_timers::text::lines_of;
use vendor_timers::text::same_text;
use vendor_timers::text::split_at_char;
use vendor_timers::text::strip_prefix;
use vendor_timers::text::trim;
use vendor_timers::text::white_space;

const SAMPLES: [&str; 14] = [
    "",
    " ",
    "a",
    " a ",
    "\t a b\u{a0}\u{3000}\r\n",
    "a,b,,c,",
    ",",
    "one\ntwo\r\nthree\rfour\n\n",
    "\r\n",
    "last\r",
    "\"NPC_Raina\"",
    "Größe ß",
    "\u{10ffff}z\u{ffff}",
    "aabaabaac",
];

#[test]
fn white_space_agrees_on_every_character() {
    for n in 0u32..=0x10ffff {
        if let Some(c) = char::from_u32(n) {
            assert_eq!(white_space(c), c.is_whitespace(), "{n:#x}");
        }
    }
}

#[test]
fn characters_are_listed() {
    for s in SAMPLES {
        assert_eq!(chars_of(s), s.chars().collect::<Vec<char>>());
    }
}

#[test]
fn trimming_agrees() {
    for s in SAMPLES {
        assert_eq!(trim(s), s.trim());
        assert_eq!(trim(trim(s)), trim(s));
    }
    assert_eq!(trim("  two words \n"), "two words");
}

#[test]
fn searching_agrees() {
    for s in SAMPLES {
        for p in SAMPLES {
            assert_eq!(contains(s, p), s.contains(p));
            let expected = s.find(p).map(|k| s[..k].chars().count());
            assert_eq!(find(s, p), expected);
        }
    }
    assert_eq!(find("aabaabaac", "aabaac"), Some(3));
    assert_eq!(find("äöü)", ")"), Some(3));
}

#[test]
fn splitting_agrees() {
    for s in SAMPLES {
        for c in [',', '"', 'a', '\u{10ffff}'] {
            let expected: Vec<String> = s.split(c).map(|p| p.to_string()).collect();
            assert_eq!(split_at_char(s, c), expected);
        }
    }
}

#[test]
fn lines_agree() {
    for s in SAMPLES {
        let expected: Vec<String> = s.lines().map(|p| p.to_string()).collect();
        assert_eq!(lines_of(s), expected);
    }
    assert_eq!(lines_of("a\r\n\r\nb"), vec!["a", "", "b"]);
}

#[test]
fn case_is_ignored_for_ascii_only() {
    assert!(eq_ignore_ascii_case("Rings", "rINGS"));
    assert!(!eq_ignore_ascii_case("Ä", "ä"));
    assert!(!eq_ignore_ascii_case("ring", "rings"));
    assert!(!eq_ignore_ascii_case("[", "{"));
    for a in SAMPLES {
        for b in SAMPLES {
            assert_eq!(eq_ignore_ascii_case(a, b), a.eq_ignore_ascii_case(b));
        }
    }
}

#[test]
fn order_of_texts_agrees() {
    for a in SAMPLES {
        for b in SAMPLES {
            assert_eq!(before(a, b), a < b);
            assert_eq!(same_text(a, b), a == b);
        }
    }
}

#[test]
fn prefixes_are_stripped() {
    assert_eq!(strip_prefix("NPC_Raina", "NPC_"), Some("Raina".to_string()));
    assert_eq!(strip_prefix("NPC_", "NPC_"), Some("".to_string()));
    assert_eq!(strip_prefix("NPC", "NPC_"), None);
    assert_eq!(strip_prefix("npc_Raina", "NPC_"), None);
}
