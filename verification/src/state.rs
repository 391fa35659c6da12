//! The state of the program: what is kept between runs, what is being typed, and what the player
//! log has told so far.

use std::collections::HashMap;

use vstd::prelude::*;

use crate::clock::is_instant;
use crate::clock::optional_is_instant;
use crate::number::signed_decimal;
use crate::text::trimmed;
use crate::vendor::loading_keeps_what_is_known_of_a_vendor;
use crate::vendor::new_vendor;
use crate::vendor::Vendor;
use crate::vendor::VendorView;

verus! {

broadcast use vstd::std_specs::hash::group_hash_axioms;

/// The minutes of a week, which is the usual time between resets at first.
pub const WEEK_MINUTES: i64 = 10080;

/// What is kept between runs.
#[derive(Debug)]
pub struct Persisted {
    pub default_reset_minutes: i64,
    pub player_log_path: String,
    pub watch_player_log: bool,
    pub vendors: Vec<Vendor>,
}

/// `Persisted` with its texts as sequences of characters.
pub struct PersistedView {
    pub default_reset_minutes: i64,
    pub player_log_path: Seq<char>,
    pub watch_player_log: bool,
    pub vendors: Seq<VendorView>,
}

/// The views of a list of vendors.
pub open spec fn vendor_views(vendors: Seq<Vendor>) -> Seq<VendorView> {
    vendors.map_values(|v: Vendor| v@)
}

impl View for Persisted {
    type V = PersistedView;

    open spec fn view(&self) -> PersistedView {
        PersistedView {
            default_reset_minutes: self.default_reset_minutes,
            player_log_path: self.player_log_path@,
            watch_player_log: self.watch_player_log,
            vendors: vendor_views(self.vendors@),
        }
    }
}

/// Whether each vendor of a list is valid.
pub open spec fn all_valid(vendors: Seq<VendorView>) -> bool {
    forall|i: int| 0 <= i < vendors.len() ==> #[trigger] vendors[i].is_valid()
}

/// Whether each vendor of a list resets at a time that a date can have, or has no timer.
pub open spec fn all_resets_are_instants(vendors: Seq<VendorView>) -> bool {
    forall|i: int| 0 <= i < vendors.len() ==> optional_is_instant((#[trigger] vendors[i]).reset_at)
}

/// The state of the program.
pub struct VendorApp {
    pub persisted: Persisted,
    /// The name that is being typed for a new vendor.
    pub draft_name: String,
    /// The money that is being typed for a new vendor.
    pub draft_money: i64,
    pub calc_days: i64,
    pub calc_hours: i64,
    pub calc_minutes: i64,
    /// The vendor that is to be brought into view.
    pub scroll_to_vendor: Option<usize>,
    /// Whether there is something to save.
    pub dirty: bool,
    /// The keys of the characters that the player has talked to, by their numbers.
    pub npc_id_to_key: HashMap<i64, String>,
    /// The number of the vendor whose screen was the last to open.
    pub last_vendor_npc_id: Option<i64>,
}

/// `VendorApp` with its texts as sequences of characters.
pub struct AppView {
    pub persisted: PersistedView,
    pub draft_name: Seq<char>,
    pub draft_money: i64,
    pub calc_days: i64,
    pub calc_hours: i64,
    pub calc_minutes: i64,
    pub scroll_to_vendor: Option<usize>,
    pub dirty: bool,
    pub npc_keys: Map<i64, Seq<char>>,
    pub last_vendor_npc_id: Option<i64>,
}

/// The texts that a map of strings holds.
pub open spec fn map_texts(m: Map<i64, String>) -> Map<i64, Seq<char>> {
    m.map_values(|s: String| s@)
}

impl View for VendorApp {
    type V = AppView;

    open spec fn view(&self) -> AppView {
        AppView {
            persisted: self.persisted@,
            draft_name: self.draft_name@,
            draft_money: self.draft_money,
            calc_days: self.calc_days,
            calc_hours: self.calc_hours,
            calc_minutes: self.calc_minutes,
            scroll_to_vendor: self.scroll_to_vendor,
            dirty: self.dirty,
            npc_keys: map_texts(self.npc_id_to_key@),
            last_vendor_npc_id: self.last_vendor_npc_id,
        }
    }
}

impl AppView {
    /// Whether all vendors are valid.
    pub open spec fn is_valid(self) -> bool {
        all_valid(self.persisted.vendors)
    }

    /// The vendors.
    pub open spec fn vendors(self) -> Seq<VendorView> {
        self.persisted.vendors
    }

    /// The state with other vendors, which are still to be saved.
    pub open spec fn with_vendors(self, vendors: Seq<VendorView>) -> AppView {
        AppView { persisted: PersistedView { vendors, ..self.persisted }, dirty: true, ..self }
    }

    /// The state with another vendor at the place `i`, which is still to be saved.
    pub open spec fn with_vendor(self, i: int, v: VendorView) -> AppView {
        self.with_vendors(self.vendors().update(i, v))
    }
}

/// The vendors as they are after they were loaded.
pub open spec fn vendors_as_loaded(vendors: Seq<VendorView>) -> Seq<VendorView> {
    vendors.map_values(|v: VendorView| v.as_loaded())
}

/// What is kept between runs, as it is after it was loaded from the save file, or at the first
/// run: the time between resets is a week unless it is positive.
pub open spec fn loaded_or_first(loaded: Option<PersistedView>) -> PersistedView {
    match loaded {
        None => PersistedView {
            default_reset_minutes: WEEK_MINUTES,
            player_log_path: Seq::empty(),
            watch_player_log: false,
            vendors: Seq::empty(),
        },
        Some(p) => PersistedView {
            default_reset_minutes: if p.default_reset_minutes <= 0 {
                WEEK_MINUTES
            } else {
                p.default_reset_minutes
            },
            vendors: vendors_as_loaded(p.vendors),
            ..p
        },
    }
}

/// The view of an optional `Persisted`.
pub open spec fn optional_persisted(p: Option<Persisted>) -> Option<PersistedView> {
    match p {
        Some(p) => Some(p@),
        None => None,
    }
}

/// The state at the start of a run.
pub open spec fn initial_state(persisted: PersistedView) -> AppView {
    AppView {
        persisted,
        draft_name: Seq::empty(),
        draft_money: 0,
        calc_days: 0,
        calc_hours: 0,
        calc_minutes: 0,
        scroll_to_vendor: None,
        dirty: false,
        npc_keys: Map::empty(),
        last_vendor_npc_id: None,
    }
}

/// A vendor with the name and the money that were typed.
pub open spec fn typed_vendor(name: Seq<char>, money: i64) -> VendorView {
    VendorView { name: trimmed(name), money, max_money: Some(money), ..new_vendor() }
}

/// Whether the overview shows a vendor of whom that was not kept.
pub fn default_true() -> (r: bool)
    ensures
        r,
{
    true
}

/// Brings vendors that were loaded into the state in which they are shown.
fn prepare_vendors(vendors: &mut Vec<Vendor>)
    ensures
        vendor_views(final(vendors)@) == vendors_as_loaded(vendor_views(old(vendors)@)),
{
    let ghost before = vendor_views(vendors@);
    let mut i: usize = 0;
    while i < vendors.len()
        invariant
            i <= vendors.len(),
            vendors.len() == before.len(),
            forall|j: int| 0 <= j < i ==> (#[trigger] vendors[j])@ == before[j].as_loaded(),
            forall|j: int| i <= j < vendors.len() ==> (#[trigger] vendors[j])@ == before[j],
        decreases vendors.len() - i,
    {
        vendors[i].prepare_loaded();
        i = i + 1;
    }
    assert(vendor_views(vendors@) =~= vendors_as_loaded(before));
}

impl VendorApp {
    /// The state at the start of a run, from what was loaded.
    pub fn new(loaded: Option<Persisted>) -> (r: VendorApp)
        ensures
            r@ == initial_state(loaded_or_first(optional_persisted(loaded))),
    {
        let persisted = match loaded {
            None => {
                let vendors: Vec<Vendor> = Vec::new();
                assert(vendor_views(vendors@) == Seq::<VendorView>::empty());
                Persisted {
                    default_reset_minutes: WEEK_MINUTES,
                    player_log_path: String::new(),
                    watch_player_log: false,
                    vendors,
                }
            },
            Some(p) => {
                let mut p = p;
                if p.default_reset_minutes <= 0 {
                    p.default_reset_minutes = WEEK_MINUTES;
                }
                prepare_vendors(&mut p.vendors);
                p
            },
        };
        let npc_id_to_key: HashMap<i64, String> = HashMap::new();
        assert(map_texts(npc_id_to_key@) == Map::<i64, Seq<char>>::empty());
        VendorApp {
            persisted,
            draft_name: String::new(),
            draft_money: 0,
            calc_days: 0,
            calc_hours: 0,
            calc_minutes: 0,
            scroll_to_vendor: None,
            dirty: false,
            npc_id_to_key,
            last_vendor_npc_id: None,
        }
    }

    /// Takes over what the windowing system kept between runs.
    pub fn restore(&mut self, persisted: Persisted)
        ensures
            final(self)@ == (AppView {
                persisted: PersistedView {
                    vendors: vendors_as_loaded(persisted@.vendors),
                    ..persisted@
                },
                ..old(self)@
            }),
    {
        let mut persisted = persisted;
        prepare_vendors(&mut persisted.vendors);
        self.persisted = persisted;
    }
}

/// The state at the start of a run is valid whatever was loaded, as long as its resets are at
/// times that a date can have, and the usual time between resets is then positive.
pub proof fn loaded_state_is_valid(loaded: Option<PersistedView>)
    requires
        loaded matches Some(p) ==> all_resets_are_instants(p.vendors),
    ensures
        initial_state(loaded_or_first(loaded)).is_valid(),
        loaded_or_first(loaded).default_reset_minutes >= 1,
{
    let vendors = loaded_or_first(loaded).vendors;
    assert forall|i: int| 0 <= i < vendors.len() implies #[trigger] vendors[i].is_valid() by {
        let before = loaded->0.vendors[i];
        assert(optional_is_instant(before.reset_at));
        assert(vendors[i] == before.as_loaded());
    }
}

/// What was loaded and is loaded again stays the same.
pub proof fn loading_again_changes_nothing(loaded: Option<PersistedView>)
    ensures
        loaded_or_first(Some(loaded_or_first(loaded))) == loaded_or_first(loaded),
{
    let once = loaded_or_first(loaded);
    assert(loaded_or_first(Some(once)).vendors =~= once.vendors);
}

/// Loading keeps as many vendors as were saved, in their order, and of each all that is known: the
/// loaded vendor at a place has the name, the key, the money, the most money, the tags, the reset,
/// the minutes between resets and the marks of the saved one there.
pub proof fn loading_keeps_the_vendors(vendors: Seq<VendorView>, i: int)
    ensures
        vendors_as_loaded(vendors).len() == vendors.len(),
        0 <= i < vendors.len() ==> ({
            let loaded = vendors_as_loaded(vendors)[i];
            let saved = vendors[i];
            &&& loaded.name == saved.name
            &&& loaded.npc_key == saved.npc_key
            &&& loaded.money == saved.money
            &&& loaded.max_money == saved.max_money
            &&& loaded.buys == saved.buys
            &&& loaded.likes == saved.likes
            &&& loaded.reset_at == saved.reset_at
            &&& loaded.reset_period_minutes == saved.reset_period_minutes
            &&& loaded.ready_refilled == saved.ready_refilled
            &&& loaded.show_in_compact == saved.show_in_compact
            &&& 1 <= saved.favor_level <= 11 ==> loaded.favor_level == saved.favor_level
            &&& saved.favor_level < 1 ==> loaded.favor_level == 1
            &&& saved.favor_level > 11 ==> loaded.favor_level == 11
            &&& loaded.draft_buy.len() == 0
            &&& loaded.draft_like.len() == 0
            &&& saved.max_money is None ==> loaded.max_money_buf.len() == 0
            &&& saved.max_money matches Some(max) ==> loaded.max_money_buf == signed_decimal(
                max as int,
            )
        }),
{
    if 0 <= i < vendors.len() {
        loading_keeps_what_is_known_of_a_vendor(vendors[i]);
    }
}

/// Loading keeps the settings and every timer as they were saved, but takes a week for a time
/// between resets that is not positive. At the first run there are no vendors, no log is followed,
/// and the time between resets is a week.
pub proof fn loading_keeps_the_settings(p: PersistedView, i: int)
    ensures
        ({
            let loaded = loaded_or_first(Some(p));
            &&& loaded.player_log_path == p.player_log_path
            &&& loaded.watch_player_log == p.watch_player_log
            &&& p.default_reset_minutes > 0 ==> loaded.default_reset_minutes
                == p.default_reset_minutes
            &&& p.default_reset_minutes <= 0 ==> loaded.default_reset_minutes == 7 * 24 * 60
            &&& loaded.vendors == vendors_as_loaded(p.vendors)
            &&& loaded.vendors.len() == p.vendors.len()
            &&& 0 <= i < p.vendors.len() ==> loaded.vendors[i].reset_at == p.vendors[i].reset_at
                && loaded.vendors[i].money == p.vendors[i].money && loaded.vendors[i].name
                == p.vendors[i].name
        }),
        loaded_or_first(None).default_reset_minutes == 7 * 24 * 60,
        loaded_or_first(None).player_log_path.len() == 0,
        !loaded_or_first(None).watch_player_log,
        loaded_or_first(None).vendors.len() == 0,
{
    loading_keeps_the_vendors(p.vendors, i);
}

/// A run starts with what was loaded, with nothing typed, nothing to save and nothing heard from
/// the log.
pub proof fn run_starts_with_what_was_loaded(p: PersistedView)
    ensures
        initial_state(p).persisted == p,
        initial_state(p).vendors() == p.vendors,
        initial_state(p).draft_name.len() == 0,
        initial_state(p).draft_money == 0,
        initial_state(p).calc_days == 0,
        initial_state(p).calc_hours == 0,
        initial_state(p).calc_minutes == 0,
        initial_state(p).scroll_to_vendor is None,
        !initial_state(p).dirty,
        forall|npc_id: i64| !initial_state(p).npc_keys.contains_key(npc_id),
        initial_state(p).last_vendor_npc_id is None,
{
}

/// A change of the vendors is to be saved, and changes nothing else; a change of one vendor leaves
/// all others as they are and where they are.
pub proof fn changed_vendors_are_to_be_saved(
    state: AppView,
    vendors: Seq<VendorView>,
    v: VendorView,
    i: int,
    j: int,
)
    requires
        0 <= i < state.persisted.vendors.len(),
        0 <= j < state.persisted.vendors.len(),
    ensures
        state.with_vendors(vendors) == (AppView {
            persisted: PersistedView { vendors, ..state.persisted },
            dirty: true,
            ..state
        }),
        state.with_vendor(i, v) == (AppView {
            persisted: PersistedView {
                vendors: state.with_vendor(i, v).persisted.vendors,
                ..state.persisted
            },
            dirty: true,
            ..state
        }),
        state.with_vendor(i, v).persisted.vendors.len() == state.persisted.vendors.len(),
        state.with_vendor(i, v).persisted.vendors[i] == v,
        j != i ==> state.with_vendor(i, v).persisted.vendors[j] == state.persisted.vendors[j],
        state.vendors() == state.persisted.vendors,
        state.is_valid() ==> state.persisted.vendors[i].is_valid(),
{
}

/// A vendor who is typed has the typed name without the white space around it, has the typed money
/// and no more than that, and is otherwise one of whom nothing is known.
pub proof fn typed_vendor_has_the_typed_money(name: Seq<char>, money: i64)
    ensures
        typed_vendor(name, money).name == trimmed(name),
        typed_vendor(name, money).money == money,
        typed_vendor(name, money).max_money == Some(money),
        typed_vendor(name, money) == (VendorView {
            name: trimmed(name),
            money,
            max_money: Some(money),
            ..new_vendor()
        }),
{
}

/// A state is valid exactly where all its vendors are.
pub proof fn state_is_valid_where_its_vendors_are(state: AppView)
    ensures
        state.is_valid() <==> forall|i: int|
            0 <= i < state.persisted.vendors.len() ==> #[trigger] state.persisted.vendors[i].is_valid(),
        all_resets_are_instants(state.persisted.vendors) <==> forall|i: int|
            0 <= i < state.persisted.vendors.len() ==> ((
            #[trigger] state.persisted.vendors[i]).reset_at matches Some(t) ==> is_instant(t)),
{
}

/// The views of what is kept and of the state tell all that these hold.
pub proof fn view_tells_all_of_the_state(p: Persisted, app: VendorApp, i: int, npc_id: i64)
    ensures
        p@.default_reset_minutes == p.default_reset_minutes,
        p@.player_log_path == p.player_log_path@,
        p@.watch_player_log == p.watch_player_log,
        p@.vendors.len() == p.vendors@.len(),
        0 <= i < p.vendors@.len() ==> p@.vendors[i] == p.vendors@[i]@,
        optional_persisted(Some(p)) == Some(p@),
        optional_persisted(None) is None,
        app@.persisted == app.persisted@,
        app@.draft_name == app.draft_name@,
        app@.draft_money == app.draft_money,
        app@.calc_days == app.calc_days,
        app@.calc_hours == app.calc_hours,
        app@.calc_minutes == app.calc_minutes,
        app@.scroll_to_vendor == app.scroll_to_vendor,
        app@.dirty == app.dirty,
        app@.last_vendor_npc_id == app.last_vendor_npc_id,
        app@.npc_keys.contains_key(npc_id) <==> app.npc_id_to_key@.contains_key(npc_id),
        app.npc_id_to_key@.contains_key(npc_id) ==> app@.npc_keys[npc_id]
            == app.npc_id_to_key@[npc_id]@,
{
}

} // verus!
