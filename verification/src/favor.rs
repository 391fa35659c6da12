//! How a vendor stands towards the player, in eleven levels.

use vstd::prelude::*;

use crate::number::decimal;
use crate::number::decimal_text;
use crate::state::VendorApp;
use crate::text::same_text;

verus! {

/// The lowest level.
pub const LOWEST_FAVOR: u8 = 1;

/// The highest level.
pub const HIGHEST_FAVOR: u8 = 11;

/// Whether `level` is one of the levels.
pub open spec fn is_favor_level(level: int) -> bool {
    LOWEST_FAVOR <= level <= HIGHEST_FAVOR
}

/// The level next to `level`.
pub open spec fn clamped_level(level: int) -> int {
    if level < LOWEST_FAVOR {
        LOWEST_FAVOR as int
    } else if level > HIGHEST_FAVOR {
        HIGHEST_FAVOR as int
    } else {
        level
    }
}

/// The name of a level.
pub open spec fn relationship(level: int) -> Seq<char> {
    if level == 1 {
        "Despised"@
    } else if level == 2 {
        "Hated"@
    } else if level == 3 {
        "Disliked"@
    } else if level == 4 {
        "Tolerated"@
    } else if level == 5 {
        "Neutral (starting)"@
    } else if level == 6 {
        "Comfortable"@
    } else if level == 7 {
        "Friends"@
    } else if level == 8 {
        "Close Friends"@
    } else if level == 9 {
        "Best Friends"@
    } else if level == 10 {
        "Like Family"@
    } else {
        "Soul Mates"@
    }
}

/// The word by which the player log names a level.
pub open spec fn favor_word(level: int) -> Seq<char> {
    if level == 1 {
        "Despised"@
    } else if level == 2 {
        "Hated"@
    } else if level == 3 {
        "Disliked"@
    } else if level == 4 {
        "Tolerated"@
    } else if level == 5 {
        "Neutral"@
    } else if level == 6 {
        "Comfortable"@
    } else if level == 7 {
        "Friends"@
    } else if level == 8 {
        "CloseFriends"@
    } else if level == 9 {
        "BestFriends"@
    } else if level == 10 {
        "LikeFamily"@
    } else {
        "SoulMates"@
    }
}

/// The level that the player log names by `word`.
pub open spec fn level_of_word(word: Seq<char>) -> Option<u8> {
    if word == "Despised"@ {
        Some(1u8)
    } else if word == "Hated"@ {
        Some(2u8)
    } else if word == "Disliked"@ {
        Some(3u8)
    } else if word == "Tolerated"@ {
        Some(4u8)
    } else if word == "Neutral"@ {
        Some(5u8)
    } else if word == "Comfortable"@ {
        Some(6u8)
    } else if word == "Friends"@ {
        Some(7u8)
    } else if word == "CloseFriends"@ {
        Some(8u8)
    } else if word == "BestFriends"@ {
        Some(9u8)
    } else if word == "LikeFamily"@ {
        Some(10u8)
    } else if word == "SoulMates"@ {
        Some(11u8)
    } else {
        None
    }
}

/// A level with its name: its number, and the name of the level next to it in parentheses.
pub open spec fn favor_caption(level: nat) -> Seq<char> {
    decimal(level) + " ("@ + relationship(clamped_level(level as int)) + ")"@
}

/// A line of the legend: the number of a level and its name.
pub open spec fn legend_entry(level: nat) -> Seq<char> {
    decimal(level) + " = "@ + relationship(level as int)
}

/// The level next to `level`.
pub fn clamp_level(level: u8) -> (r: u8)
    ensures
        r == clamped_level(level as int),
        is_favor_level(r as int),
{
    if level < LOWEST_FAVOR {
        LOWEST_FAVOR
    } else if level > HIGHEST_FAVOR {
        HIGHEST_FAVOR
    } else {
        level
    }
}

impl VendorApp {
    /// The name of the level next to `level`.
    pub fn favor_label(level: u8) -> (r: &'static str)
        ensures
            r@ == relationship(clamped_level(level as int)),
    {
        let level: u8 = clamp_level(level);
        if level == 1 {
            "Despised"
        } else if level == 2 {
            "Hated"
        } else if level == 3 {
            "Disliked"
        } else if level == 4 {
            "Tolerated"
        } else if level == 5 {
            "Neutral (starting)"
        } else if level == 6 {
            "Comfortable"
        } else if level == 7 {
            "Friends"
        } else if level == 8 {
            "Close Friends"
        } else if level == 9 {
            "Best Friends"
        } else if level == 10 {
            "Like Family"
        } else {
            "Soul Mates"
        }
    }

    /// The level that the player log names by `s`.
    pub fn favor_str_to_level(s: &str) -> (r: Option<u8>)
        ensures
            r == level_of_word(s@),
            r matches Some(level) ==> is_favor_level(level as int),
    {
        if same_text(s, "Despised") {
            Some(1)
        } else if same_text(s, "Hated") {
            Some(2)
        } else if same_text(s, "Disliked") {
            Some(3)
        } else if same_text(s, "Tolerated") {
            Some(4)
        } else if same_text(s, "Neutral") {
            Some(5)
        } else if same_text(s, "Comfortable") {
            Some(6)
        } else if same_text(s, "Friends") {
            Some(7)
        } else if same_text(s, "CloseFriends") {
            Some(8)
        } else if same_text(s, "BestFriends") {
            Some(9)
        } else if same_text(s, "LikeFamily") {
            Some(10)
        } else if same_text(s, "SoulMates") {
            Some(11)
        } else {
            None
        }
    }

    /// A level with its name.
    pub fn favor_text(level: u8) -> (r: String)
        ensures
            r@ == favor_caption(level as nat),
    {
        let mut r = decimal_text(level as u64);
        r.append(" (");
        r.append(VendorApp::favor_label(level));
        r.append(")");
        r
    }

    /// The line of the legend for a level.
    pub fn legend_line(level: u8) -> (r: String)
        requires
            is_favor_level(level as int),
        ensures
            r@ == legend_entry(level as nat),
    {
        let mut r = decimal_text(level as u64);
        r.append(" = ");
        r.append(VendorApp::favor_label(level));
        r
    }
}

/// The words of the player log and the levels stand for each other one to one.
pub proof fn words_and_levels_are_one_to_one(level: int, word: Seq<char>)
    ensures
        is_favor_level(level) ==> level_of_word(favor_word(level)) == Some(level as u8),
        level_of_word(word) matches Some(n) ==> is_favor_level(n as int) && favor_word(n as int)
            == word,
{
    reveal_strlit("Despised");
    assert("Despised"@.len() == 8);
    reveal_strlit("Hated");
    assert("Hated"@.len() == 5);
    reveal_strlit("Disliked");
    assert("Disliked"@.len() == 8);
    reveal_strlit("Tolerated");
    assert("Tolerated"@.len() == 9);
    reveal_strlit("Neutral");
    assert("Neutral"@.len() == 7);
    reveal_strlit("Comfortable");
    assert("Comfortable"@.len() == 11);
    reveal_strlit("Friends");
    assert("Friends"@.len() == 7);
    reveal_strlit("CloseFriends");
    assert("CloseFriends"@.len() == 12);
    reveal_strlit("BestFriends");
    assert("BestFriends"@.len() == 11);
    reveal_strlit("LikeFamily");
    assert("LikeFamily"@.len() == 10);
    reveal_strlit("SoulMates");
    assert("SoulMates"@.len() == 9);
    assert("Despised"@[1] != "Disliked"@[1]);
    assert("Tolerated"@[0] != "SoulMates"@[0]);
    assert("Neutral"@[0] != "Friends"@[0]);
    assert("Comfortable"@[0] != "BestFriends"@[0]);
}

/// The levels are the numbers from 1 to 11, and every number is brought to the one next to it.
pub proof fn levels_are_one_to_eleven(level: int)
    ensures
        is_favor_level(level) <==> 1 <= level <= 11,
        1 <= level <= 11 ==> clamped_level(level) == level,
        level <= 1 ==> clamped_level(level) == 1,
        level >= 11 ==> clamped_level(level) == 11,
{
}

/// A level is shown as its number and, in parentheses, the name of the level next to it; in the
/// legend, as its number, an equals sign and its name.
pub proof fn levels_are_shown_with_number_and_name(level: nat)
    ensures
        1 <= level <= 11 ==> favor_caption(level) == decimal(level) + seq![' ', '('] + relationship(
            level as int,
        ) + seq![')'],
        level > 11 ==> favor_caption(level) == decimal(level) + seq![' ', '('] + relationship(11)
            + seq![')'],
        favor_caption(0) == decimal(0) + seq![' ', '('] + relationship(1) + seq![')'],
        legend_entry(level) == decimal(level) + seq![' ', '=', ' '] + relationship(level as int),
{
    reveal_strlit(" (");
    reveal_strlit(")");
    reveal_strlit(" = ");
    assert(" ("@ =~= seq![' ', '(']);
    assert(")"@ =~= seq![')']);
    assert(" = "@ =~= seq![' ', '=', ' ']);
}

} // verus!
