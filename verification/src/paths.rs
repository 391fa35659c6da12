//! Where files are: what a typed path stands for, and where the program looks for its own files.

use vstd::prelude::*;

use crate::text::same_text;
use crate::text::strip_prefix;
use crate::text::texts;
use crate::text::trim;
use crate::text::trimmed;
use crate::text::trimmed_text_stays_as_it_is;
use crate::text::trimming_takes_off_what_is_blank;

verus! {

/// A path: as it is written, or by the names that lead to it from the home directory.
#[derive(Debug, PartialEq, Eq)]
pub enum PathPlan {
    Written(String),
    FromHome(Vec<String>),
}

/// A `PathPlan` with its texts as sequences of characters.
pub enum PathPlanView {
    Written(Seq<char>),
    FromHome(Seq<Seq<char>>),
}

impl View for PathPlan {
    type V = PathPlanView;

    open spec fn view(&self) -> PathPlanView {
        match *self {
            PathPlan::Written(path) => PathPlanView::Written(path@),
            PathPlan::FromHome(names) => PathPlanView::FromHome(texts(names@)),
        }
    }
}

/// What the typed path `s` stands for: a tilde stands for the home directory, and on systems
/// like Unix so does nothing before the directory of settings. Where the home directory is not
/// known, and in all other cases, the path is as it is written.
pub open spec fn expanded(s: Seq<char>, home_known: bool, unix: bool) -> PathPlanView {
    let path = trimmed(s);
    if home_known && path == "~"@ {
        PathPlanView::FromHome(Seq::empty())
    } else if home_known && "~/"@.is_prefix_of(path) {
        PathPlanView::FromHome(seq![path.skip(2)])
    } else if home_known && unix && ".config/"@.is_prefix_of(path) {
        PathPlanView::FromHome(seq![".config"@, path.skip(8)])
    } else {
        PathPlanView::Written(path)
    }
}

/// The names that lead from the home directory to the player log.
pub open spec fn player_log_names(unix: bool) -> Seq<Seq<char>> {
    if unix {
        seq![".config"@, "unity3d"@, "Elder Game"@, "Project Gorgon"@, "Player.log"@]
    } else {
        seq!["AppData"@, "LocalLow"@, "Elder Game"@, "Project Gorgon"@, "Player.log"@]
    }
}

/// What a typed path stands for.
pub fn expand_user_path(s: &str, home_known: bool, unix: bool) -> (r: PathPlan)
    ensures
        r@ == expanded(s@, home_known, unix),
{
    proof {
        reveal_strlit("~");
        reveal_strlit("~/");
        reveal_strlit(".config/");
    }
    let path = trim(s);
    if home_known {
        if same_text(path, "~") {
            let names: Vec<String> = Vec::new();
            assert(texts(names@) =~= Seq::empty());
            return PathPlan::FromHome(names);
        }
        if let Some(rest) = strip_prefix(path, "~/") {
            let mut names: Vec<String> = Vec::new();
            names.push(rest);
            assert(texts(names@) =~= seq![path@.skip(2)]);
            return PathPlan::FromHome(names);
        }
        if unix {
            if let Some(rest) = strip_prefix(path, ".config/") {
                let mut names: Vec<String> = Vec::new();
                names.push(".config".to_owned());
                names.push(rest);
                assert(texts(names@) =~= seq![".config"@, path@.skip(8)]);
                return PathPlan::FromHome(names);
            }
        }
    }
    PathPlan::Written(path.to_owned())
}

/// The names that lead from the home directory to the player log, where the home directory is
/// known.
pub fn default_player_log_path(home_known: bool, unix: bool) -> (r: Option<PathPlan>)
    ensures
        match r {
            Some(plan) => home_known && plan@ == PathPlanView::FromHome(player_log_names(unix)),
            None => !home_known,
        },
{
    if !home_known {
        return None;
    }
    let mut names: Vec<String> = Vec::new();
    if unix {
        names.push(".config".to_owned());
        names.push("unity3d".to_owned());
    } else {
        names.push("AppData".to_owned());
        names.push("LocalLow".to_owned());
    }
    names.push("Elder Game".to_owned());
    names.push("Project Gorgon".to_owned());
    names.push("Player.log".to_owned());
    assert(texts(names@) =~= player_log_names(unix));
    Some(PathPlan::FromHome(names))
}

/// What is shown where no path of the player log is typed: where it usually is, given as it is
/// displayed.
pub fn default_player_log_hint(usual_path: Option<String>) -> (r: String)
    ensures
        r@ == (match usual_path {
            Some(path) => path@,
            None => "Path to Player.log"@,
        }),
{
    match usual_path {
        Some(path) => path,
        None => "Path to Player.log".to_owned(),
    }
}

/// The names that lead from the directory of local data to the save file.
pub fn default_save_path() -> (r: Vec<String>)
    ensures
        texts(r@) == seq!["vendor_timers"@, "vendors.json"@],
{
    let mut names: Vec<String> = Vec::new();
    names.push("vendor_timers".to_owned());
    names.push("vendors.json".to_owned());
    assert(texts(names@) =~= seq!["vendor_timers"@, "vendors.json"@]);
    names
}

/// The names that lead from the directory of local data to what the windowing system keeps.
pub fn persistence_path() -> (r: Vec<String>)
    ensures
        texts(r@) == seq!["vendor_timers"@, "eframe_state.ron"@],
{
    let mut names: Vec<String> = Vec::new();
    names.push("vendor_timers".to_owned());
    names.push("eframe_state.ron".to_owned());
    assert(texts(names@) =~= seq!["vendor_timers"@, "eframe_state.ron"@]);
    names
}

/// A path that is typed without white space around it stands for itself, unless it is a tilde or
/// starts with one before a slash, or on systems like Unix with the directory of settings. Where
/// the home directory is not known, every such path stands for itself.
pub proof fn plain_path_stands_for_itself(s: Seq<char>, home_known: bool, unix: bool)
    requires
        trimmed(s) == s,
        home_known ==> s != "~"@ && !"~/"@.is_prefix_of(s),
        home_known && unix ==> !".config/"@.is_prefix_of(s),
    ensures
        expanded(s, home_known, unix) == PathPlanView::Written(s),
{
}

/// White space around a typed path does not matter.
pub proof fn white_space_around_a_path_does_not_matter(
    s: Seq<char>,
    home_known: bool,
    unix: bool,
)
    ensures
        expanded(trimmed(s), home_known, unix) == expanded(s, home_known, unix),
{
    trimmed_text_stays_as_it_is(s);
}

/// Where the home directory is known, a tilde stands for it, and what follows a tilde and a slash is
/// looked for there; so is, on systems like Unix, what is in the directory of settings.
pub proof fn tilde_stands_for_the_home_directory(rest: Seq<char>, unix: bool)
    requires
        trimmed(seq!['~', '/'] + rest) == seq!['~', '/'] + rest,
    ensures
        expanded(seq!['~'], true, unix) == PathPlanView::FromHome(Seq::empty()),
        expanded(seq!['~', '/'] + rest, true, unix) == PathPlanView::FromHome(seq![rest]),
{
    reveal_strlit("~");
    reveal_strlit("~/");
    assert("~"@ =~= seq!['~']);
    assert("~/"@ =~= seq!['~', '/']);
    let none: Seq<char> = Seq::empty();
    trimming_takes_off_what_is_blank(none, seq!['~'], none);
    assert(none + seq!['~'] + none =~= seq!['~']);
    let path = seq!['~', '/'] + rest;
    assert(path.subrange(0, 2) =~= "~/"@);
    assert("~/"@.is_prefix_of(path));
    assert(path.skip(2) =~= rest);
    assert(path != "~"@);
}

/// On systems like Unix, and where the home directory is known, the directory of settings is looked
/// for in the home directory.
pub proof fn settings_are_in_the_home_directory(rest: Seq<char>)
    requires
        trimmed(".config/"@ + rest) == ".config/"@ + rest,
    ensures
        expanded(".config/"@ + rest, true, true) == PathPlanView::FromHome(seq![".config"@, rest]),
        expanded(".config/"@ + rest, true, false) == PathPlanView::Written(".config/"@ + rest),
{
    reveal_strlit("~");
    reveal_strlit("~/");
    reveal_strlit(".config/");
    let path = ".config/"@ + rest;
    assert(path.subrange(0, 8) =~= ".config/"@);
    assert(".config/"@.is_prefix_of(path));
    assert(path.skip(8) =~= rest);
    assert(path[0] == '.');
    if "~/"@.is_prefix_of(path) {
        assert("~/"@[0] == path[0]);
    }
    assert("~"@[0] == '~');
}

/// The player log is in the directory of the game, which is among the settings on systems like Unix
/// and among the local data of programs on others.
pub proof fn player_log_is_among_the_files_of_the_game()
    ensures
        player_log_names(true) == seq![
            ".config"@,
            "unity3d"@,
            "Elder Game"@,
            "Project Gorgon"@,
            "Player.log"@,
        ],
        player_log_names(false) == seq![
            "AppData"@,
            "LocalLow"@,
            "Elder Game"@,
            "Project Gorgon"@,
            "Player.log"@,
        ],
{
}

/// The view of a path tells all that the path holds.
pub proof fn view_tells_all_of_a_path(plan: PathPlan)
    ensures
        match plan {
            PathPlan::Written(path) => plan@ == PathPlanView::Written(path@),
            PathPlan::FromHome(names) => plan@ == PathPlanView::FromHome(texts(names@)),
        },
{
}

} // verus!
