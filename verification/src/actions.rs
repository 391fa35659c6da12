//! What the player changes at the window, and what the clock changes.

use vstd::prelude::*;

use crate::clock::is_instant;
use crate::clock::Timestamp;
use crate::log_state::keys_are_distinct;
use crate::state::all_valid;
use crate::state::typed_vendor;
use crate::state::vendor_views;
use crate::state::AppView;
use crate::state::PersistedView;
use crate::state::VendorApp;
use crate::tags::is_list_with;
use crate::tags::takes_tag;
use crate::text::texts;
use crate::text::trim;
use crate::text::trimmed;
use crate::text::trimmed_text_stays_as_it_is;
use crate::vendor::changes_keep_vendors_valid;
use crate::vendor::look_at_the_clock_keeps_the_timer;
use crate::vendor::new_vendor;
use crate::vendor::Vendor;
use crate::vendor::VendorView;

verus! {

/// Whether a number is one of 64 bits.
pub open spec fn fits_i64(n: int) -> bool {
    i64::MIN <= n <= i64::MAX
}

impl AppView {
    /// The minutes of the days, hours and minutes that are typed.
    pub open spec fn calculated_minutes(self) -> int {
        self.calc_days * 1440 + self.calc_hours * 60 + self.calc_minutes
    }

    /// Whether the calculation stays within the numbers of 64 bits.
    pub open spec fn can_calculate(self) -> bool {
        &&& fits_i64(self.calc_days * 1440)
        &&& fits_i64(self.calc_hours * 60)
        &&& fits_i64(self.calc_days * 1440 + self.calc_hours * 60)
        &&& fits_i64(self.calculated_minutes())
    }

    /// The state with the calculated minutes, but at least one, between resets.
    pub open spec fn with_calculated_default(self) -> AppView {
        let minutes = self.calculated_minutes();
        AppView {
            persisted: PersistedView {
                default_reset_minutes: if minutes < 1 {
                    1
                } else {
                    minutes as i64
                },
                ..self.persisted
            },
            dirty: true,
            ..self
        }
    }

    /// The state with the vendor that is typed, where a name is, and with nothing typed then.
    pub open spec fn with_typed_vendor(self) -> AppView {
        if trimmed(self.draft_name).len() == 0 {
            self
        } else {
            AppView { draft_name: Seq::empty(), draft_money: 0, ..self.with_vendors(
                self.vendors().push(typed_vendor(self.draft_name, self.draft_money)),
            ) }
        }
    }

    /// Whether the reset of some vendor has come and the money was not refilled since.
    pub open spec fn some_vendor_is_due(self, now: int) -> bool {
        exists|i: int| 0 <= i < self.vendors().len() && #[trigger] self.vendors()[i].is_due(now)
    }

    /// The state after a look at the clock.
    pub open spec fn after_look_at_clock(self, now: int) -> AppView {
        AppView {
            persisted: PersistedView {
                vendors: self.vendors().map_values(|v: VendorView| v.after_due_reset(now)),
                ..self.persisted
            },
            dirty: self.dirty || self.some_vendor_is_due(now),
            ..self
        }
    }

    /// The state with other tags at the vendor at the place `i`, and with nothing typed there.
    pub open spec fn with_tags(
        self,
        i: int,
        buys: Seq<Seq<char>>,
        likes: Seq<Seq<char>>,
        draft_buy: Seq<char>,
        draft_like: Seq<char>,
        changed: bool,
    ) -> AppView {
        AppView {
            persisted: PersistedView {
                vendors: self.vendors().update(
                    i,
                    VendorView { buys, likes, draft_buy, draft_like, ..self.vendors()[i] },
                ),
                ..self.persisted
            },
            dirty: self.dirty || changed,
            ..self
        }
    }
}

impl VendorApp {
    /// Notes that there is something to save.
    pub fn mark_dirty(&mut self)
        ensures
            final(self)@ == (AppView { dirty: true, ..old(self)@ }),
    {
        self.dirty = true;
    }

    /// What is to be written to the save file, given how the state is written there: nothing
    /// where nothing is to be saved or the state cannot be written. Nothing is to be saved
    /// after that.
    pub fn save_if_dirty(&mut self, written: Option<String>) -> (r: Option<String>)
        ensures
            r == (if old(self)@.dirty {
                written
            } else {
                None
            }),
            final(self)@ == (AppView {
                dirty: old(self)@.dirty && written is None,
                ..old(self)@
            }),
    {
        if !self.dirty {
            return None;
        }
        if written.is_some() {
            self.dirty = false;
        }
        written
    }

    /// The minutes of the days, hours and minutes that are typed.
    pub fn calc_total(&self) -> (r: i64)
        requires
            self@.can_calculate(),
        ensures
            r == self@.calculated_minutes(),
    {
        self.calc_days * 24 * 60 + self.calc_hours * 60 + self.calc_minutes
    }

    /// Takes the calculated minutes as those between resets.
    pub fn set_default_from_calc(&mut self)
        requires
            old(self)@.can_calculate(),
        ensures
            final(self)@ == old(self)@.with_calculated_default(),
            final(self)@.persisted.default_reset_minutes >= 1,
    {
        let total: i64 = self.calc_total();
        self.persisted.default_reset_minutes = if total < 1 {
            1
        } else {
            total
        };
        self.dirty = true;
    }

    /// Takes another file as the player log.
    pub fn set_player_log_path(&mut self, path: String)
        ensures
            final(self)@ == (AppView {
                persisted: PersistedView { player_log_path: path@, ..old(self)@.persisted },
                dirty: true,
                ..old(self)@
            }),
    {
        self.persisted.player_log_path = path;
        self.dirty = true;
    }

    /// Whether a name is typed for a new vendor.
    pub fn can_add_vendor(&self) -> (r: bool)
        ensures
            r == (trimmed(self@.draft_name).len() > 0),
    {
        !trim(self.draft_name.as_str()).is_empty()
    }

    /// Adds the vendor that is typed, where a name is.
    pub fn add_vendor(&mut self)
        ensures
            final(self)@ == old(self)@.with_typed_vendor(),
    {
        if !self.can_add_vendor() {
            return ;
        }
        let ghost before = vendor_views(self.persisted.vendors@);
        let mut v = Vendor::default();
        v.name = trim(self.draft_name.as_str()).to_owned();
        v.money = self.draft_money;
        v.max_money = Some(self.draft_money);
        let ghost added = v@;
        self.persisted.vendors.push(v);
        assert(vendor_views(self.persisted.vendors@) =~= before.push(added));
        self.draft_name = String::new();
        self.draft_money = 0;
        self.dirty = true;
    }

    /// Removes all vendors.
    pub fn clear_vendors(&mut self)
        ensures
            final(self)@ == old(self)@.with_vendors(Seq::empty()),
    {
        self.persisted.vendors.clear();
        assert(vendor_views(self.persisted.vendors@) =~= Seq::empty());
        self.dirty = true;
    }

    /// Removes a vendor.
    pub fn remove_vendor(&mut self, i: usize)
        requires
            i < old(self)@.vendors().len(),
        ensures
            final(self)@ == old(self)@.with_vendors(old(self)@.vendors().remove(i as int)),
    {
        let ghost before = vendor_views(self.persisted.vendors@);
        self.persisted.vendors.remove(i);
        assert(vendor_views(self.persisted.vendors@) =~= before.remove(i as int));
        self.dirty = true;
    }

    /// Refills the money of all vendors whose reset has come, once.
    pub fn refill_due_vendors(&mut self, now: Timestamp)
        ensures
            final(self)@ == old(self)@.after_look_at_clock(now@),
    {
        let ghost before = vendor_views(self.persisted.vendors@);
        let ghost state = self@;
        let mut i: usize = 0;
        while i < self.persisted.vendors.len()
            invariant
                i <= self.persisted.vendors.len(),
                self.persisted.vendors.len() == before.len(),
                before == state.vendors(),
                state == old(self)@,
                forall|j: int|
                    0 <= j < i ==> (#[trigger] self.persisted.vendors[j])@
                        == before[j].after_due_reset(now@),
                forall|j: int|
                    i <= j < before.len() ==> (#[trigger] self.persisted.vendors[j])@ == before[j],
                self.dirty == (state.dirty || exists|j: int|
                    0 <= j < i && #[trigger] before[j].is_due(now@)),
                self@ == (AppView {
                    persisted: PersistedView { vendors: self@.vendors(), ..state.persisted },
                    dirty: self.dirty,
                    ..state
                }),
            decreases self.persisted.vendors.len() - i,
        {
            let due = self.persisted.vendors[i].refill_when_due(now);
            if due {
                assert(before[i as int].is_due(now@));
                self.dirty = true;
            }
            i = i + 1;
        }
        assert(vendor_views(self.persisted.vendors@) =~= before.map_values(
            |v: VendorView| v.after_due_reset(now@),
        ));
    }

    /// Starts the timer of a vendor.
    pub fn start_vendor_timer(&mut self, i: usize, now: Timestamp)
        requires
            i < old(self)@.vendors().len(),
            is_instant(now@),
            is_instant(
                old(self)@.vendors()[i as int].next_reset(
                    old(self)@.persisted.default_reset_minutes,
                    now@,
                ),
            ),
        ensures
            final(self)@ == old(self)@.with_vendor(
                i as int,
                old(self)@.vendors()[i as int].with_timer_started(
                    old(self)@.persisted.default_reset_minutes,
                    now@,
                ),
            ),
    {
        let ghost before = vendor_views(self.persisted.vendors@);
        let minutes: i64 = self.persisted.default_reset_minutes;
        self.persisted.vendors[i].start_timer(minutes, now);
        assert(vendor_views(self.persisted.vendors@) =~= before.update(
            i as int,
            before[i as int].with_timer_started(minutes, now@),
        ));
        self.dirty = true;
    }

    /// Starts the timer of a vendor from the overview, which also refills the money.
    pub fn reset_vendor(&mut self, i: usize, now: Timestamp)
        requires
            i < old(self)@.vendors().len(),
            is_instant(now@),
            is_instant(
                old(self)@.vendors()[i as int].next_reset(
                    old(self)@.persisted.default_reset_minutes,
                    now@,
                ),
            ),
        ensures
            final(self)@ == old(self)@.with_vendor(
                i as int,
                old(self)@.vendors()[i as int].with_timer_started(
                    old(self)@.persisted.default_reset_minutes,
                    now@,
                ).refilled(),
            ),
    {
        let ghost before = vendor_views(self.persisted.vendors@);
        let minutes: i64 = self.persisted.default_reset_minutes;
        self.persisted.vendors[i].start_timer_and_refill(minutes, now);
        assert(vendor_views(self.persisted.vendors@) =~= before.update(
            i as int,
            before[i as int].with_timer_started(minutes, now@).refilled(),
        ));
        self.dirty = true;
    }

    /// Drops the timer of a vendor.
    pub fn clear_vendor_timer(&mut self, i: usize)
        requires
            i < old(self)@.vendors().len(),
        ensures
            final(self)@ == old(self)@.with_vendor(
                i as int,
                old(self)@.vendors()[i as int].with_timer_cleared(),
            ),
    {
        let ghost before = vendor_views(self.persisted.vendors@);
        self.persisted.vendors[i].clear_timer();
        assert(vendor_views(self.persisted.vendors@) =~= before.update(
            i as int,
            before[i as int].with_timer_cleared(),
        ));
        self.dirty = true;
    }

    /// Refills the money of a vendor. This alone is no reason to save.
    pub fn refill_vendor(&mut self, i: usize)
        requires
            i < old(self)@.vendors().len(),
        ensures
            final(self)@ == (AppView {
                dirty: old(self)@.dirty,
                ..old(self)@.with_vendor(i as int, old(self)@.vendors()[i as int].refilled())
            }),
    {
        let ghost before = vendor_views(self.persisted.vendors@);
        self.persisted.vendors[i].refill_money();
        assert(vendor_views(self.persisted.vendors@) =~= before.update(
            i as int,
            before[i as int].refilled(),
        ));
    }

    /// Gives a vendor minutes of its own between resets, or takes them away.
    pub fn set_vendor_override(&mut self, i: usize, enabled: bool)
        requires
            i < old(self)@.vendors().len(),
        ensures
            final(self)@ == old(self)@.with_vendor(
                i as int,
                old(self)@.vendors()[i as int].with_override(
                    enabled,
                    old(self)@.persisted.default_reset_minutes,
                ),
            ),
    {
        let ghost before = vendor_views(self.persisted.vendors@);
        let minutes: i64 = self.persisted.default_reset_minutes;
        self.persisted.vendors[i].set_override(enabled, minutes);
        assert(vendor_views(self.persisted.vendors@) =~= before.update(
            i as int,
            before[i as int].with_override(enabled, minutes),
        ));
        self.dirty = true;
    }

    /// Takes over what was typed for the most money of a vendor, where it can be read.
    pub fn sync_vendor_max_money(&mut self, i: usize)
        requires
            i < old(self)@.vendors().len(),
        ensures
            final(self)@ == (if old(self)@.vendors()[i as int].max_money_is_unreadable() {
                old(self)@
            } else {
                old(self)@.with_vendor(
                    i as int,
                    old(self)@.vendors()[i as int].with_typed_max_money(),
                )
            }),
    {
        let ghost before = vendor_views(self.persisted.vendors@);
        let read = self.persisted.vendors[i].sync_max_money();
        assert(vendor_views(self.persisted.vendors@) =~= before.update(
            i as int,
            before[i as int].with_typed_max_money(),
        ));
        if read {
            self.dirty = true;
        } else {
            assert(before.update(i as int, before[i as int]) =~= before);
        }
    }

    /// Adds the typed tag to what a vendor buys.
    pub fn add_vendor_buy(&mut self, i: usize)
        requires
            i < old(self)@.vendors().len(),
        ensures
            ({
                let v = old(self)@.vendors()[i as int];
                let buys = final(self)@.vendors()[i as int].buys;
                &&& is_list_with(v.buys, v.draft_buy, buys)
                &&& final(self)@ == old(self)@.with_tags(
                    i as int,
                    buys,
                    v.likes,
                    Seq::empty(),
                    v.draft_like,
                    takes_tag(v.buys, v.draft_buy),
                )
            }),
    {
        let ghost before = vendor_views(self.persisted.vendors@);
        proof {
            trimmed_text_stays_as_it_is(before[i as int].draft_buy);
        }
        let item = VendorApp::normalize_tag(self.persisted.vendors[i].draft_buy.as_str());
        let taken = VendorApp::add_unique(&mut self.persisted.vendors[i].buys, item);
        self.persisted.vendors[i].draft_buy = String::new();
        if taken {
            self.dirty = true;
        }
        assert(vendor_views(self.persisted.vendors@) =~= before.update(
            i as int,
            self.persisted.vendors[i as int]@,
        ));
    }

    /// Adds the typed tag to what a vendor likes.
    pub fn add_vendor_like(&mut self, i: usize)
        requires
            i < old(self)@.vendors().len(),
        ensures
            ({
                let v = old(self)@.vendors()[i as int];
                let likes = final(self)@.vendors()[i as int].likes;
                &&& is_list_with(v.likes, v.draft_like, likes)
                &&& final(self)@ == old(self)@.with_tags(
                    i as int,
                    v.buys,
                    likes,
                    v.draft_buy,
                    Seq::empty(),
                    takes_tag(v.likes, v.draft_like),
                )
            }),
    {
        let ghost before = vendor_views(self.persisted.vendors@);
        proof {
            trimmed_text_stays_as_it_is(before[i as int].draft_like);
        }
        let item = VendorApp::normalize_tag(self.persisted.vendors[i].draft_like.as_str());
        let taken = VendorApp::add_unique(&mut self.persisted.vendors[i].likes, item);
        self.persisted.vendors[i].draft_like = String::new();
        if taken {
            self.dirty = true;
        }
        assert(vendor_views(self.persisted.vendors@) =~= before.update(
            i as int,
            self.persisted.vendors[i as int]@,
        ));
    }

    /// Takes a tag, or none, out of what a vendor buys.
    pub fn remove_vendor_buy(&mut self, i: usize, remove: Option<usize>)
        requires
            i < old(self)@.vendors().len(),
            remove matches Some(idx) ==> idx < old(self)@.vendors()[i as int].buys.len(),
        ensures
            ({
                let v = old(self)@.vendors()[i as int];
                final(self)@ == old(self)@.with_tags(
                    i as int,
                    match remove {
                        Some(idx) => v.buys.remove(idx as int),
                        None => v.buys,
                    },
                    v.likes,
                    v.draft_buy,
                    v.draft_like,
                    remove is Some,
                )
            }),
    {
        let ghost before = vendor_views(self.persisted.vendors@);
        VendorApp::chip_list(&mut self.persisted.vendors[i].buys, remove, &mut self.dirty);
        assert(vendor_views(self.persisted.vendors@) =~= before.update(
            i as int,
            self.persisted.vendors[i as int]@,
        ));
    }

    /// Takes a tag, or none, out of what a vendor likes.
    pub fn remove_vendor_like(&mut self, i: usize, remove: Option<usize>)
        requires
            i < old(self)@.vendors().len(),
            remove matches Some(idx) ==> idx < old(self)@.vendors()[i as int].likes.len(),
        ensures
            ({
                let v = old(self)@.vendors()[i as int];
                final(self)@ == old(self)@.with_tags(
                    i as int,
                    v.buys,
                    match remove {
                        Some(idx) => v.likes.remove(idx as int),
                        None => v.likes,
                    },
                    v.draft_buy,
                    v.draft_like,
                    remove is Some,
                )
            }),
    {
        let ghost before = vendor_views(self.persisted.vendors@);
        VendorApp::chip_list(&mut self.persisted.vendors[i].likes, remove, &mut self.dirty);
        assert(vendor_views(self.persisted.vendors@) =~= before.update(
            i as int,
            self.persisted.vendors[i as int]@,
        ));
    }

    /// Takes all tags out of what a vendor buys.
    pub fn clear_vendor_buys(&mut self, i: usize)
        requires
            i < old(self)@.vendors().len(),
        ensures
            ({
                let v = old(self)@.vendors()[i as int];
                final(self)@ == old(self)@.with_tags(
                    i as int,
                    Seq::empty(),
                    v.likes,
                    v.draft_buy,
                    v.draft_like,
                    v.buys.len() > 0,
                )
            }),
    {
        let ghost before = vendor_views(self.persisted.vendors@);
        VendorApp::clear_tags(&mut self.persisted.vendors[i].buys, &mut self.dirty);
        assert(texts(self.persisted.vendors[i as int].buys@) =~= Seq::empty());
        assert(vendor_views(self.persisted.vendors@) =~= before.update(
            i as int,
            self.persisted.vendors[i as int]@,
        ));
    }

    /// Takes all tags out of what a vendor likes.
    pub fn clear_vendor_likes(&mut self, i: usize)
        requires
            i < old(self)@.vendors().len(),
        ensures
            ({
                let v = old(self)@.vendors()[i as int];
                final(self)@ == old(self)@.with_tags(
                    i as int,
                    v.buys,
                    Seq::empty(),
                    v.draft_buy,
                    v.draft_like,
                    v.likes.len() > 0,
                )
            }),
    {
        let ghost before = vendor_views(self.persisted.vendors@);
        VendorApp::clear_tags(&mut self.persisted.vendors[i].likes, &mut self.dirty);
        assert(texts(self.persisted.vendors[i as int].likes@) =~= Seq::empty());
        assert(vendor_views(self.persisted.vendors@) =~= before.update(
            i as int,
            self.persisted.vendors[i as int]@,
        ));
    }

    /// Asks for a vendor to be brought into view.
    pub fn scroll_to(&mut self, i: usize)
        ensures
            final(self)@ == (AppView { scroll_to_vendor: Some(i), ..old(self)@ }),
    {
        self.scroll_to_vendor = Some(i);
    }

    /// The vendor that is to be brought into view now, where one is and its place in the window
    /// is known, which it is of the first `cards` vendors. One whose place is not known is kept
    /// for the next time.
    pub fn take_scroll_target(&mut self, cards: usize) -> (r: Option<usize>)
        ensures
            r == (match old(self)@.scroll_to_vendor {
                Some(i) => if i < cards {
                    Some(i)
                } else {
                    None
                },
                None => None,
            }),
            final(self)@ == (AppView {
                scroll_to_vendor: if r is Some {
                    None
                } else {
                    old(self)@.scroll_to_vendor
                },
                ..old(self)@
            }),
    {
        match self.scroll_to_vendor {
            Some(i) => if i < cards {
                self.scroll_to_vendor = None;
                Some(i)
            } else {
                None
            },
            None => None,
        }
    }
}

/// A second look at the clock at the same time changes nothing.
pub proof fn second_look_changes_nothing(state: AppView, now: int)
    ensures
        state.after_look_at_clock(now).after_look_at_clock(now) == state.after_look_at_clock(now),
        !state.after_look_at_clock(now).some_vendor_is_due(now),
{
    let once = state.after_look_at_clock(now);
    let twice = once.after_look_at_clock(now);
    assert forall|i: int| 0 <= i < once.vendors().len() implies !#[trigger] once.vendors()[i].is_due(
        now,
    ) by {
        assert(once.vendors()[i] == state.vendors()[i].after_due_reset(now));
    }
    assert(twice.vendors() =~= once.vendors());
}

/// A look at the clock before any reset has come changes nothing, so that nothing new is to be
/// saved.
pub proof fn nothing_due_changes_nothing(state: AppView, now: int)
    requires
        !state.some_vendor_is_due(now),
    ensures
        state.after_look_at_clock(now) == state,
{
    assert forall|i: int| 0 <= i < state.vendors().len() implies state.vendors()[i].after_due_reset(
        now,
    ) == #[trigger] state.vendors()[i] by {
        assert(!state.vendors()[i].is_due(now));
    }
    assert(state.after_look_at_clock(now).vendors() =~= state.vendors());
}

/// Removing a vendor that was just added gives the vendors back as they were.
pub proof fn removing_undoes_adding(state: AppView)
    requires
        trimmed(state.draft_name).len() > 0,
    ensures
        state.with_typed_vendor().vendors().len() == state.vendors().len() + 1,
        state.with_typed_vendor().vendors().remove(state.vendors().len() as int)
            == state.vendors(),
{
    assert(state.with_typed_vendor().vendors().remove(state.vendors().len() as int)
        =~= state.vendors());
}

/// Nothing that the player or the clock does gives two vendors the same key: a vendor who is typed
/// has none, and the others keep theirs.
pub proof fn actions_keep_keys_distinct(state: AppView, i: int, v: VendorView, now: int)
    requires
        keys_are_distinct(state.vendors()),
        0 <= i < state.vendors().len(),
        v.npc_key == state.vendors()[i].npc_key,
    ensures
        keys_are_distinct(state.with_typed_vendor().vendors()),
        keys_are_distinct(state.with_vendors(state.vendors().remove(i)).vendors()),
        keys_are_distinct(state.after_look_at_clock(now).vendors()),
        keys_are_distinct(state.with_vendor(i, v).vendors()),
{
    let vendors = state.vendors();
    let more = state.with_typed_vendor().vendors();
    let fewer = vendors.remove(i);
    let looked = state.after_look_at_clock(now).vendors();
    let changed = vendors.update(i, v);
    assert forall|a: int, b: int|
        #![trigger more[a], more[b]]
        0 <= a < b < more.len() && more[a].npc_key is Some implies more[a].npc_key
        != more[b].npc_key by {
        if b < vendors.len() {
            assert(more[a] == vendors[a] && more[b] == vendors[b]);
        }
    }
    assert forall|a: int, b: int|
        #![trigger fewer[a], fewer[b]]
        0 <= a < b < fewer.len() && fewer[a].npc_key is Some implies fewer[a].npc_key
        != fewer[b].npc_key by {
        let x = if a < i {
            a
        } else {
            a + 1
        };
        let y = if b < i {
            b
        } else {
            b + 1
        };
        assert(fewer[a] == vendors[x] && fewer[b] == vendors[y]);
    }
    assert forall|a: int, b: int|
        #![trigger looked[a], looked[b]]
        0 <= a < b < looked.len() && looked[a].npc_key is Some implies looked[a].npc_key
        != looked[b].npc_key by {
        assert(looked[a].npc_key == vendors[a].npc_key);
        assert(looked[b].npc_key == vendors[b].npc_key);
    }
    assert forall|a: int, b: int|
        #![trigger changed[a], changed[b]]
        0 <= a < b < changed.len() && changed[a].npc_key is Some implies changed[a].npc_key
        != changed[b].npc_key by {
        assert(changed[a].npc_key == vendors[a].npc_key);
        assert(changed[b].npc_key == vendors[b].npc_key);
    }
}

/// Every action keeps the state valid, as long as timers end at a time that a date can have.
pub proof fn actions_keep_the_state_valid(
    state: AppView,
    i: int,
    now: int,
    enabled: bool,
    buys: Seq<Seq<char>>,
    likes: Seq<Seq<char>>,
    draft_buy: Seq<char>,
    draft_like: Seq<char>,
    changed: bool,
)
    requires
        state.is_valid(),
        0 <= i < state.vendors().len(),
    ensures
        ({
            let v = state.vendors()[i];
            let minutes = state.persisted.default_reset_minutes;
            &&& state.with_calculated_default().is_valid()
            &&& state.with_typed_vendor().is_valid()
            &&& state.with_vendors(Seq::empty()).is_valid()
            &&& state.with_vendors(state.vendors().remove(i)).is_valid()
            &&& state.after_look_at_clock(now).is_valid()
            &&& is_instant(v.next_reset(minutes, now)) ==> state.with_vendor(
                i,
                v.with_timer_started(minutes, now),
            ).is_valid()
            &&& is_instant(v.next_reset(minutes, now)) ==> state.with_vendor(
                i,
                v.with_timer_started(minutes, now).refilled(),
            ).is_valid()
            &&& state.with_vendor(i, v.with_timer_cleared()).is_valid()
            &&& state.with_vendor(i, v.refilled()).is_valid()
            &&& state.with_vendor(i, v.with_override(enabled, minutes)).is_valid()
            &&& state.with_vendor(i, v.with_typed_max_money()).is_valid()
            &&& state.with_tags(i, buys, likes, draft_buy, draft_like, changed).is_valid()
        }),
{
    let v = state.vendors()[i];
    let minutes = state.persisted.default_reset_minutes;
    assert(v.is_valid());
    changes_keep_vendors_valid(v, minutes, now, enabled);
    let looked = state.after_look_at_clock(now).vendors();
    assert forall|j: int| 0 <= j < looked.len() implies #[trigger] looked[j].is_valid() by {
        assert(state.vendors()[j].is_valid());
    }
    let fewer = state.vendors().remove(i);
    assert forall|j: int| 0 <= j < fewer.len() implies #[trigger] fewer[j].is_valid() by {
        if j < i {
            assert(state.vendors()[j].is_valid());
        } else {
            assert(state.vendors()[j + 1].is_valid());
        }
    }
    let more = state.with_typed_vendor().vendors();
    assert forall|j: int| 0 <= j < more.len() implies #[trigger] more[j].is_valid() by {
        if j < state.vendors().len() {
            assert(state.vendors()[j].is_valid());
        } else {
            assert(more[j] == typed_vendor(state.draft_name, state.draft_money));
        }
    }
    lemma_other_vendor_keeps_valid(state.vendors(), i, v.with_timer_cleared());
    lemma_other_vendor_keeps_valid(state.vendors(), i, v.refilled());
    lemma_other_vendor_keeps_valid(state.vendors(), i, v.with_override(enabled, minutes));
    lemma_other_vendor_keeps_valid(state.vendors(), i, v.with_typed_max_money());
    lemma_other_vendor_keeps_valid(
        state.vendors(),
        i,
        VendorView { buys, likes, draft_buy, draft_like, ..v },
    );
    if is_instant(v.next_reset(minutes, now)) {
        lemma_other_vendor_keeps_valid(state.vendors(), i, v.with_timer_started(minutes, now));
        lemma_other_vendor_keeps_valid(
            state.vendors(),
            i,
            v.with_timer_started(minutes, now).refilled(),
        );
    }
}

proof fn lemma_other_vendor_keeps_valid(vendors: Seq<VendorView>, i: int, v: VendorView)
    requires
        all_valid(vendors),
        0 <= i < vendors.len(),
        v.is_valid(),
    ensures
        all_valid(vendors.update(i, v)),
{
    let changed = vendors.update(i, v);
    assert forall|j: int| 0 <= j < changed.len() implies #[trigger] changed[j].is_valid() by {
        assert(vendors[j].is_valid());
    }
}

/// The calculated minutes are those of the days, of the hours and of the minutes that are typed.
/// They become the usual minutes, which are at least one and are to be saved, and nothing else
/// changes.
pub proof fn calculated_minutes_become_the_usual_ones(state: AppView)
    requires
        state.can_calculate(),
    ensures
        state.calculated_minutes() == (state.calc_days * 24 + state.calc_hours) * 60
            + state.calc_minutes,
        ({
            let new = state.with_calculated_default();
            &&& state.calculated_minutes() >= 1 ==> new.persisted.default_reset_minutes
                == state.calculated_minutes()
            &&& state.calculated_minutes() < 1 ==> new.persisted.default_reset_minutes == 1
            &&& new == (AppView {
                persisted: PersistedView {
                    default_reset_minutes: new.persisted.default_reset_minutes,
                    ..state.persisted
                },
                dirty: true,
                ..state
            })
        }),
{
}

/// Days, hours and minutes that are not negative can be calculated with exactly where their
/// minutes are a number of 64 bits.
pub proof fn what_fits_can_be_calculated(state: AppView)
    requires
        state.calc_days >= 0,
        state.calc_hours >= 0,
        state.calc_minutes >= 0,
    ensures
        state.can_calculate() <==> (state.calc_days * 24 + state.calc_hours) * 60
            + state.calc_minutes <= 9223372036854775807,
{
}

/// A vendor for whom a name is typed is added behind all others, with the typed name and money;
/// nothing is typed then, and the vendors are to be saved. Without a name nothing changes.
pub proof fn typed_vendor_is_added_last(state: AppView, i: int)
    ensures
        trimmed(state.draft_name).len() == 0 ==> state.with_typed_vendor() == state,
        trimmed(state.draft_name).len() > 0 ==> ({
            let new = state.with_typed_vendor();
            let n = state.persisted.vendors.len() as int;
            &&& new.persisted.vendors.len() == n + 1
            &&& 0 <= i < n ==> new.persisted.vendors[i] == state.persisted.vendors[i]
            &&& new.persisted.vendors[n].name == trimmed(state.draft_name)
            &&& new.persisted.vendors[n].money == state.draft_money
            &&& new.persisted.vendors[n].max_money == Some(state.draft_money)
            &&& new.persisted.vendors[n] == (VendorView {
                name: trimmed(state.draft_name),
                money: state.draft_money,
                max_money: Some(state.draft_money),
                ..new_vendor()
            })
            &&& new.draft_name.len() == 0
            &&& new.draft_money == 0
            &&& new == (AppView {
                persisted: PersistedView { vendors: new.persisted.vendors, ..state.persisted },
                draft_name: new.draft_name,
                draft_money: new.draft_money,
                dirty: true,
                ..state
            })
        }),
{
}

/// A look at the clock leaves every vendor in its place and every timer as it is. A vendor whose
/// reset has come and whose money was not refilled since has the most money then, where it is
/// known, and is to be saved; nothing else changes.
pub proof fn look_at_the_clock_refills_due_vendors(state: AppView, now: int, i: int)
    requires
        0 <= i < state.persisted.vendors.len(),
    ensures
        ({
            let new = state.after_look_at_clock(now);
            let before = state.persisted.vendors[i];
            let after = new.persisted.vendors[i];
            let due = before.reset_at is Some && before.reset_at->0 <= now
                && !before.ready_refilled;
            &&& new.persisted.vendors.len() == state.persisted.vendors.len()
            &&& after.reset_at == before.reset_at
            &&& !due ==> after == before
            &&& due ==> after.ready_refilled && after.money == (match before.max_money {
                Some(max) => max,
                None => before.money,
            })
            &&& after == (VendorView {
                money: after.money,
                ready_refilled: after.ready_refilled,
                ..before
            })
            &&& due ==> new.dirty
            &&& state.dirty ==> new.dirty
            &&& new.dirty && !state.dirty ==> exists|k: int|
                0 <= k < state.persisted.vendors.len() && (#[trigger] state.persisted.vendors[
                    k
                ]).reset_at is Some && state.persisted.vendors[k].reset_at->0 <= now
                    && !state.persisted.vendors[k].ready_refilled
            &&& new == (AppView {
                persisted: PersistedView { vendors: new.persisted.vendors, ..state.persisted },
                dirty: new.dirty,
                ..state
            })
        }),
{
    look_at_the_clock_keeps_the_timer(state.vendors()[i], now);
    let new = state.after_look_at_clock(now);
    assert(new.persisted.vendors[i] == state.vendors()[i].after_due_reset(now));
    if state.vendors()[i].is_due(now) {
        assert(state.some_vendor_is_due(now));
    }
    if new.dirty && !state.dirty {
        let k = choose|k: int|
            0 <= k < state.vendors().len() && #[trigger] state.vendors()[k].is_due(now);
        look_at_the_clock_keeps_the_timer(state.vendors()[k], now);
        assert(state.persisted.vendors[k].reset_at is Some);
    }
}

/// A change of the tags of a vendor gives that vendor just these tags and just what is typed, is to
/// be saved where it is said to be one, and changes nothing else.
pub proof fn change_of_tags_changes_the_tags(
    state: AppView,
    i: int,
    buys: Seq<Seq<char>>,
    likes: Seq<Seq<char>>,
    draft_buy: Seq<char>,
    draft_like: Seq<char>,
    changed: bool,
    j: int,
)
    requires
        0 <= i < state.persisted.vendors.len(),
        0 <= j < state.persisted.vendors.len(),
    ensures
        ({
            let new = state.with_tags(i, buys, likes, draft_buy, draft_like, changed);
            &&& new.persisted.vendors.len() == state.persisted.vendors.len()
            &&& new.persisted.vendors[i] == (VendorView {
                buys,
                likes,
                draft_buy,
                draft_like,
                ..state.persisted.vendors[i]
            })
            &&& j != i ==> new.persisted.vendors[j] == state.persisted.vendors[j]
            &&& new.dirty == (state.dirty || changed)
            &&& new == (AppView {
                persisted: PersistedView { vendors: new.persisted.vendors, ..state.persisted },
                dirty: new.dirty,
                ..state
            })
        }),
{
}

} // verus!
