//! What the events of the player log change.

use vstd::prelude::*;

use crate::clock::optional_instant;
use crate::clock::Timestamp;
use crate::clock::MAX_SECONDS;
use crate::clock::SECOND;
use crate::favor::level_of_word;
use crate::log_line::optional_text;
use crate::log_line::LogEvent;
use crate::log_line::LogEventView;
use crate::number::i64_text;
use crate::number::signed_decimal;
use crate::state::map_texts;
use crate::state::vendor_views;
use crate::state::AppView;
use crate::state::PersistedView;
use crate::state::VendorApp;
use crate::text::same_text;
use crate::text::strip_prefix;
use crate::vendor::new_vendor;
use crate::vendor::Vendor;
use crate::vendor::VendorView;

verus! {

broadcast use vstd::std_specs::hash::group_hash_axioms;

/// What an event changes of a vendor.
#[derive(Debug)]
pub enum VendorChange {
    /// The favor has this level.
    Favor(u8),
    /// The vendor has this money, this most money, and this reset where it is known.
    Gold { remaining: i64, cap: i64, reset_at: Option<Timestamp> },
}

impl VendorChange {
    /// The vendor after the change.
    pub open spec fn applied(self, v: VendorView) -> VendorView {
        match self {
            VendorChange::Favor(level) => VendorView { favor_level: level, ..v },
            VendorChange::Gold { remaining, cap, reset_at } => {
                let v = VendorView {
                    money: remaining,
                    max_money: Some(cap),
                    max_money_buf: signed_decimal(cap as int),
                    ..v
                };
                match optional_instant(reset_at) {
                    Some(t) => VendorView { reset_at: Some(t), ready_refilled: false, ..v },
                    None => v,
                }
            },
        }
    }
}

/// The name of a vendor of whom only the key is known: the key without the prefix that marks
/// characters.
pub open spec fn name_from_key(key: Seq<char>) -> Seq<char> {
    if "NPC_"@.is_prefix_of(key) {
        key.skip("NPC_"@.len() as int)
    } else {
        key
    }
}

/// A vendor of whom only the key is known.
pub open spec fn vendor_from_key(key: Seq<char>) -> VendorView {
    VendorView { npc_key: Some(key), name: name_from_key(key), ..new_vendor() }
}

/// The place of the first vendor with the given key, or the number of vendors.
pub open spec fn place_of_key(vendors: Seq<VendorView>, key: Seq<char>) -> int
    decreases vendors.len(),
{
    if vendors.len() == 0 || vendors[0].npc_key == Some(key) {
        0
    } else {
        1 + place_of_key(vendors.drop_first(), key)
    }
}

/// The time of a reset that an event gives in milliseconds, where it gives one that a date can
/// have. Parts of a second are dropped.
pub open spec fn reset_from_milliseconds(reset_at_ms: i64) -> Option<int> {
    if reset_at_ms > 0 && reset_at_ms / 1000 <= MAX_SECONDS {
        Some((reset_at_ms / 1000) * SECOND)
    } else {
        None
    }
}

/// The level of the favor that an event names, where it names one.
pub open spec fn named_level(favor: Option<Seq<char>>) -> Option<u8> {
    match favor {
        Some(word) => level_of_word(word),
        None => None,
    }
}

/// A vendor with the money, the most money and the reset that an event tells.
pub open spec fn vendor_with_gold(
    v: VendorView,
    remaining: i64,
    reset_at_ms: i64,
    cap: i64,
) -> VendorView {
    VendorView {
        money: remaining,
        max_money: Some(cap),
        max_money_buf: signed_decimal(cap as int),
        reset_at: match reset_from_milliseconds(reset_at_ms) {
            Some(t) => Some(t),
            None => v.reset_at,
        },
        ready_refilled: reset_from_milliseconds(reset_at_ms) is None && v.ready_refilled,
        ..v
    }
}

impl AppView {
    /// The state in which the vendor with the given key is `f` of what it was. A vendor who was
    /// not there is added.
    pub open spec fn with_vendor_of_key(
        self,
        key: Seq<char>,
        f: spec_fn(VendorView) -> VendorView,
    ) -> AppView {
        let vendors = self.vendors();
        let k = place_of_key(vendors, key);
        self.with_vendors(
            if k < vendors.len() {
                vendors.update(k, f(vendors[k]))
            } else {
                vendors.push(f(vendor_from_key(key)))
            },
        )
    }

    /// The key of the vendor whose screen was the last to open, where it is known.
    pub open spec fn open_vendor_key(self) -> Option<Seq<char>> {
        match self.last_vendor_npc_id {
            Some(id) => if self.npc_keys.contains_key(id) {
                Some(self.npc_keys[id])
            } else {
                None
            },
            None => None,
        }
    }

    /// The state after an event of the player log.
    pub open spec fn after_event(self, event: LogEventView) -> AppView {
        match event {
            LogEventView::StartInteraction { npc_id, npc_key } => match npc_key {
                Some(key) => AppView { npc_keys: self.npc_keys.insert(npc_id, key), ..self },
                None => self,
            },
            LogEventView::VendorScreen { npc_id, favor } => {
                let opened = AppView { last_vendor_npc_id: Some(npc_id), ..self };
                match (opened.open_vendor_key(), named_level(favor)) {
                    (Some(key), Some(level)) => opened.with_vendor_of_key(
                        key,
                        |v: VendorView| VendorView { favor_level: level, ..v },
                    ),
                    _ => opened,
                }
            },
            LogEventView::VendorGoldUpdate { remaining, reset_at_ms, cap } => match
                self.open_vendor_key() {
                Some(key) => self.with_vendor_of_key(
                    key,
                    |v: VendorView| vendor_with_gold(v, remaining, reset_at_ms, cap),
                ),
                None => self,
            },
        }
    }

    /// The state after a list of events.
    pub open spec fn after_events(self, events: Seq<LogEventView>) -> AppView
        decreases events.len(),
    {
        if events.len() == 0 {
            self
        } else {
            self.after_events(events.drop_last()).after_event(events.last())
        }
    }
}

proof fn lemma_place_of_key(vendors: Seq<VendorView>, key: Seq<char>)
    ensures
        0 <= place_of_key(vendors, key) <= vendors.len(),
        place_of_key(vendors, key) < vendors.len() ==> vendors[place_of_key(
            vendors,
            key,
        )].npc_key == Some(key),
        forall|i: int|
            0 <= i < place_of_key(vendors, key) ==> (#[trigger] vendors[i]).npc_key != Some(key),
    decreases vendors.len(),
{
    if vendors.len() > 0 && vendors[0].npc_key != Some(key) {
        lemma_place_of_key(vendors.drop_first(), key);
        assert forall|i: int| 0 <= i < place_of_key(vendors, key) implies (
        #[trigger] vendors[i]).npc_key != Some(key) by {
            if i > 0 {
                assert(vendors.drop_first()[i - 1] == vendors[i]);
            }
        }
    }
}

impl Vendor {
    /// Applies a change.
    pub fn apply_change(&mut self, change: VendorChange)
        ensures
            final(self)@ == change.applied(old(self)@),
    {
        match change {
            VendorChange::Favor(level) => {
                self.favor_level = level;
            },
            VendorChange::Gold { remaining, cap, reset_at } => {
                self.money = remaining;
                self.max_money = Some(cap);
                self.max_money_buf = i64_text(cap);
                if let Some(t) = reset_at {
                    self.reset_at = Some(t);
                    self.ready_refilled = false;
                }
            },
        }
    }

    /// Whether the vendor has the given key.
    fn has_key(&self, key: &str) -> (r: bool)
        ensures
            r == (self@.npc_key == Some(key@)),
    {
        match &self.npc_key {
            Some(k) => same_text(k.as_str(), key),
            None => false,
        }
    }
}

impl VendorApp {
    /// The key of a character without the prefix that marks characters.
    pub fn strip_npc_prefix(key: &str) -> (r: String)
        ensures
            r@ == name_from_key(key@),
    {
        match strip_prefix(key, "NPC_") {
            Some(rest) => rest,
            None => key.to_owned(),
        }
    }

    /// Changes the vendor with the given key, and adds that vendor where there is none.
    pub fn upsert_vendor_by_key(&mut self, npc_key: &str, change: VendorChange)
        ensures
            final(self)@ == old(self)@.with_vendor_of_key(
                npc_key@,
                |v: VendorView| change.applied(v),
            ),
    {
        let ghost before = vendor_views(self.persisted.vendors@);
        let ghost key = npc_key@;
        let mut i: usize = 0;
        assert(before.skip(0) == before);
        while i < self.persisted.vendors.len()
            invariant
                i <= self.persisted.vendors.len(),
                *self == *old(self),
                key == npc_key@,
                before == vendor_views(self.persisted.vendors@),
                place_of_key(before, key) == i + place_of_key(before.skip(i as int), key),
            decreases self.persisted.vendors.len() - i,
        {
            assert(before[i as int] == self.persisted.vendors[i as int]@);
            if self.persisted.vendors[i].has_key(npc_key) {
                self.persisted.vendors[i].apply_change(change);
                self.dirty = true;
                assert(vendor_views(self.persisted.vendors@) =~= before.update(
                    i as int,
                    change.applied(before[i as int]),
                ));
                return ;
            }
            assert(before.skip(i as int).drop_first() == before.skip(i + 1));
            i = i + 1;
        }
        let mut v = Vendor::default();
        v.npc_key = Some(npc_key.to_owned());
        v.name = VendorApp::strip_npc_prefix(npc_key);
        assert(v@ == vendor_from_key(key));
        v.apply_change(change);
        let ghost added = v@;
        self.persisted.vendors.push(v);
        self.dirty = true;
        assert(vendor_views(self.persisted.vendors@) =~= before.push(added));
    }

    /// The key of a character, where the log has told it.
    fn key_of(&self, npc_id: i64) -> (r: Option<String>)
        ensures
            optional_text(r) == (if self@.npc_keys.contains_key(npc_id) {
                Some(self@.npc_keys[npc_id])
            } else {
                None
            }),
    {
        match self.npc_id_to_key.get(&npc_id) {
            Some(key) => Some(key.clone()),
            None => None,
        }
    }

    /// Applies an event of the player log.
    pub fn apply_log_event(&mut self, event: LogEvent)
        ensures
            final(self)@ == old(self)@.after_event(event@),
    {
        match event {
            LogEvent::StartInteraction { npc_id, npc_key } => {
                if let Some(key) = npc_key {
                    let ghost keys = self.npc_id_to_key@;
                    let ghost text = key@;
                    self.npc_id_to_key.insert(npc_id, key);
                    assert(map_texts(self.npc_id_to_key@) =~= map_texts(keys).insert(npc_id, text));
                }
            },
            LogEvent::VendorScreen { npc_id, favor } => {
                self.last_vendor_npc_id = Some(npc_id);
                if let Some(key) = self.key_of(npc_id) {
                    if let Some(word) = favor {
                        if let Some(level) = VendorApp::favor_str_to_level(word.as_str()) {
                            self.upsert_vendor_by_key(key.as_str(), VendorChange::Favor(level));
                        }
                    }
                }
            },
            LogEvent::VendorGoldUpdate { remaining, reset_at_ms, cap } => {
                let npc_id: i64 = match self.last_vendor_npc_id {
                    Some(npc_id) => npc_id,
                    None => {
                        return ;
                    },
                };
                let key = match self.key_of(npc_id) {
                    Some(key) => key,
                    None => {
                        return ;
                    },
                };
                let reset_at = if reset_at_ms > 0 {
                    Timestamp::from_unix_seconds(reset_at_ms / 1000)
                } else {
                    None
                };
                assert(optional_instant(reset_at) == reset_from_milliseconds(reset_at_ms));
                let change = VendorChange::Gold { remaining, cap, reset_at };
                assert(forall|v: VendorView| #[trigger]
                    change.applied(v) == vendor_with_gold(v, remaining, reset_at_ms, cap));
                self.upsert_vendor_by_key(key.as_str(), change);
            },
        }
    }
}

/// Whether no two vendors have the same key.
pub open spec fn keys_are_distinct(vendors: Seq<VendorView>) -> bool {
    forall|i: int, j: int|
        #![trigger vendors[i], vendors[j]]
        0 <= i < j < vendors.len() && vendors[i].npc_key is Some ==> vendors[i].npc_key
            != vendors[j].npc_key
}

/// An event that tells of a vendor whose key is not known changes no vendor.
pub proof fn unknown_vendors_are_not_changed(state: AppView, event: LogEventView)
    requires
        match event {
            LogEventView::StartInteraction { npc_id, npc_key } => true,
            LogEventView::VendorScreen { npc_id, favor } => !state.npc_keys.contains_key(npc_id)
                || named_level(favor) is None,
            LogEventView::VendorGoldUpdate { remaining, reset_at_ms, cap } =>
                state.open_vendor_key() is None,
        },
    ensures
        state.after_event(event).persisted == state.persisted,
        state.after_event(event).dirty == state.dirty,
{
}

/// A change of one vendor leaves all others as they are and where they are, gives the vendor its
/// new state, and adds a vendor only where there was none with the key.
pub proof fn change_touches_one_vendor(
    state: AppView,
    key: Seq<char>,
    f: spec_fn(VendorView) -> VendorView,
)
    requires
        forall|v: VendorView| (#[trigger] f(v)).npc_key == v.npc_key,
    ensures
        ({
            let old_vendors = state.vendors();
            let new_vendors = state.with_vendor_of_key(key, f).vendors();
            let k = place_of_key(old_vendors, key);
            &&& k < new_vendors.len()
            &&& new_vendors[k].npc_key == Some(key)
            &&& place_of_key(new_vendors, key) == k
            &&& forall|i: int|
                0 <= i < old_vendors.len() && i != k ==> #[trigger] new_vendors[i]
                    == old_vendors[i]
            &&& k < old_vendors.len() ==> new_vendors.len() == old_vendors.len()
                && new_vendors[k] == f(old_vendors[k])
            &&& k == old_vendors.len() ==> new_vendors.len() == old_vendors.len() + 1
                && new_vendors[k] == f(vendor_from_key(key))
            &&& keys_are_distinct(old_vendors) ==> keys_are_distinct(new_vendors)
        }),
{
    let old_vendors = state.vendors();
    let new_vendors = state.with_vendor_of_key(key, f).vendors();
    let k = place_of_key(old_vendors, key);
    lemma_place_of_key(old_vendors, key);
    lemma_place_of_key(new_vendors, key);
    let found = place_of_key(new_vendors, key);
    if found < k {
        assert(new_vendors[found] == old_vendors[found]);
    } else if k < found {
        assert(new_vendors[k].npc_key == Some(key));
    }
    if keys_are_distinct(old_vendors) {
        assert forall|i: int, j: int|
            #![trigger new_vendors[i], new_vendors[j]]
            0 <= i < j < new_vendors.len() && new_vendors[i].npc_key is Some implies
            new_vendors[i].npc_key != new_vendors[j].npc_key by {
            if k < old_vendors.len() {
                assert(new_vendors[i].npc_key == old_vendors[i].npc_key);
                assert(new_vendors[j].npc_key == old_vendors[j].npc_key);
            } else if j < old_vendors.len() {
                assert(new_vendors[i] == old_vendors[i] && new_vendors[j] == old_vendors[j]);
            } else {
                assert(new_vendors[i] == old_vendors[i]);
            }
        }
    }
}

/// No event gives two vendors the same key.
pub proof fn events_keep_keys_distinct(state: AppView, events: Seq<LogEventView>)
    requires
        keys_are_distinct(state.vendors()),
    ensures
        keys_are_distinct(state.after_events(events).vendors()),
    decreases events.len(),
{
    if events.len() > 0 {
        events_keep_keys_distinct(state, events.drop_last());
        lemma_event_keeps_keys_distinct(state.after_events(events.drop_last()), events.last());
    }
}

proof fn lemma_event_keeps_keys_distinct(state: AppView, event: LogEventView)
    requires
        keys_are_distinct(state.vendors()),
    ensures
        keys_are_distinct(state.after_event(event).vendors()),
{
    match event {
        LogEventView::StartInteraction { npc_id, npc_key } => {},
        LogEventView::VendorScreen { npc_id, favor } => {
            let opened = AppView { last_vendor_npc_id: Some(npc_id), ..state };
            if let (Some(key), Some(level)) = (opened.open_vendor_key(), named_level(favor)) {
                change_touches_one_vendor(
                    opened,
                    key,
                    |v: VendorView| VendorView { favor_level: level, ..v },
                );
            }
        },
        LogEventView::VendorGoldUpdate { remaining, reset_at_ms, cap } => {
            if let Some(key) = state.open_vendor_key() {
                change_touches_one_vendor(
                    state,
                    key,
                    |v: VendorView| vendor_with_gold(v, remaining, reset_at_ms, cap),
                );
            }
        },
    }
}

/// The state stays valid whatever the player log tells.
pub proof fn events_keep_the_state_valid(state: AppView, events: Seq<LogEventView>)
    requires
        state.is_valid(),
    ensures
        state.after_events(events).is_valid(),
    decreases events.len(),
{
    if events.len() > 0 {
        events_keep_the_state_valid(state, events.drop_last());
        lemma_event_keeps_valid(state.after_events(events.drop_last()), events.last());
    }
}

proof fn lemma_change_keeps_valid(
    state: AppView,
    key: Seq<char>,
    f: spec_fn(VendorView) -> VendorView,
)
    requires
        state.is_valid(),
        forall|v: VendorView| v.is_valid() ==> (#[trigger] f(v)).is_valid(),
    ensures
        state.with_vendor_of_key(key, f).is_valid(),
{
    let vendors = state.vendors();
    let changed = state.with_vendor_of_key(key, f).vendors();
    lemma_place_of_key(vendors, key);
    assert(vendor_from_key(key).is_valid());
    assert forall|i: int| 0 <= i < changed.len() implies #[trigger] changed[i].is_valid() by {
        if i < vendors.len() {
            assert(vendors[i].is_valid());
        }
    }
}

proof fn lemma_event_keeps_valid(state: AppView, event: LogEventView)
    requires
        state.is_valid(),
    ensures
        state.after_event(event).is_valid(),
{
    match event {
        LogEventView::StartInteraction { npc_id, npc_key } => {},
        LogEventView::VendorScreen { npc_id, favor } => {
            let opened = AppView { last_vendor_npc_id: Some(npc_id), ..state };
            if let (Some(key), Some(level)) = (opened.open_vendor_key(), named_level(favor)) {
                lemma_change_keeps_valid(
                    opened,
                    key,
                    |v: VendorView| VendorView { favor_level: level, ..v },
                );
            }
        },
        LogEventView::VendorGoldUpdate { remaining, reset_at_ms, cap } => {
            if let Some(key) = state.open_vendor_key() {
                lemma_change_keeps_valid(
                    state,
                    key,
                    |v: VendorView| vendor_with_gold(v, remaining, reset_at_ms, cap),
                );
            }
        },
    }
}

/// After the log has told a character's key, the opening of that character's screen and a change
/// of the money, the vendor with this key has just this money, this most money, this favor and
/// this reset, and the state is to be saved.
pub proof fn told_vendor_is_up_to_date(
    state: AppView,
    npc_id: i64,
    key: Seq<char>,
    favor: Seq<char>,
    remaining: i64,
    reset_at_ms: i64,
    cap: i64,
)
    ensures
        ({
            let told = state.after_event(
                LogEventView::StartInteraction { npc_id, npc_key: Some(key) },
            ).after_event(
                LogEventView::VendorScreen { npc_id, favor: Some(favor) },
            ).after_event(LogEventView::VendorGoldUpdate { remaining, reset_at_ms, cap });
            let k = place_of_key(told.vendors(), key);
            &&& k < told.vendors().len()
            &&& told.vendors()[k].npc_key == Some(key)
            &&& told.vendors()[k].money == remaining
            &&& told.vendors()[k].max_money == Some(cap)
            &&& level_of_word(favor) matches Some(level) ==> told.vendors()[k].favor_level == level
            &&& reset_from_milliseconds(reset_at_ms) matches Some(t)
                ==> told.vendors()[k].reset_at == Some(t) && !told.vendors()[k].ready_refilled
            &&& told.dirty
        }),
{
    let met = state.after_event(LogEventView::StartInteraction { npc_id, npc_key: Some(key) });
    let opened = AppView { last_vendor_npc_id: Some(npc_id), ..met };
    let seen = met.after_event(LogEventView::VendorScreen { npc_id, favor: Some(favor) });
    assert(met.npc_keys[npc_id] == key);
    assert(opened.open_vendor_key() == Some(key));
    if let Some(level) = level_of_word(favor) {
        change_touches_one_vendor(
            opened,
            key,
            |v: VendorView| VendorView { favor_level: level, ..v },
        );
    }
    assert(seen.open_vendor_key() == Some(key));
    change_touches_one_vendor(
        seen,
        key,
        |v: VendorView| vendor_with_gold(v, remaining, reset_at_ms, cap),
    );
}

/// Whether `k` is the first place at which a vendor has the given key.
pub open spec fn is_first_with_key(vendors: Seq<VendorView>, key: Seq<char>, k: int) -> bool {
    &&& 0 <= k < vendors.len()
    &&& vendors[k].npc_key == Some(key)
    &&& forall|i: int| 0 <= i < k ==> (#[trigger] vendors[i]).npc_key != Some(key)
}

/// The vendor with a key is the first one that has it. Where no vendor has it, a vendor is added
/// behind all others.
pub proof fn key_is_looked_for_from_the_start(vendors: Seq<VendorView>, key: Seq<char>, k: int)
    ensures
        is_first_with_key(vendors, key, k) ==> place_of_key(vendors, key) == k,
        (forall|i: int| 0 <= i < vendors.len() ==> (#[trigger] vendors[i]).npc_key != Some(key))
            ==> place_of_key(vendors, key) == vendors.len(),
{
    lemma_place_of_key(vendors, key);
    let place = place_of_key(vendors, key);
    if is_first_with_key(vendors, key, k) {
        if place < k {
            assert(vendors[place].npc_key != Some(key));
        } else if k < place {
            assert(vendors[k].npc_key != Some(key));
        }
    }
}

/// A change by key is to be saved and changes nothing but the vendors: the first vendor with the
/// key, and no other; where no vendor has the key, a vendor of whom only the key is known is added
/// behind all others and changed.
pub proof fn change_by_key_goes_to_the_first_with_the_key(
    state: AppView,
    key: Seq<char>,
    f: spec_fn(VendorView) -> VendorView,
    k: int,
    j: int,
)
    ensures
        ({
            let before = state.persisted.vendors;
            let new = state.with_vendor_of_key(key, f);
            let after = new.persisted.vendors;
            let added = VendorView {
                npc_key: Some(key),
                name: name_from_key(key),
                ..new_vendor()
            };
            &&& is_first_with_key(before, key, k) ==> after.len() == before.len() && after[k] == f(
                before[k],
            ) && (0 <= j < before.len() && j != k ==> after[j] == before[j])
            &&& (forall|i: int| 0 <= i < before.len() ==> (#[trigger] before[i]).npc_key != Some(key))
                ==> after.len() == before.len() + 1 && after[before.len() as int] == f(added) && (0
                <= j < before.len() ==> after[j] == before[j])
            &&& new == (AppView {
                persisted: PersistedView { vendors: after, ..state.persisted },
                dirty: true,
                ..state
            })
        }),
{
    key_is_looked_for_from_the_start(state.vendors(), key, k);
}

/// A vendor of whom only the key is known is named by the key without the prefix of characters, and
/// by the whole key where it has no such prefix.
pub proof fn keys_give_names(rest: Seq<char>, key: Seq<char>)
    ensures
        name_from_key(seq!['N', 'P', 'C', '_'] + rest) == rest,
        key.len() < 4 || key.take(4) != seq!['N', 'P', 'C', '_'] ==> name_from_key(key) == key,
{
    reveal_strlit("NPC_");
    let prefixed = seq!['N', 'P', 'C', '_'] + rest;
    assert("NPC_"@ =~= seq!['N', 'P', 'C', '_']);
    assert(prefixed.subrange(0, 4) =~= "NPC_"@);
    assert("NPC_"@.is_prefix_of(prefixed));
    assert(prefixed.skip(4) =~= rest);
    if "NPC_"@.is_prefix_of(key) {
        assert(key.take(4) =~= "NPC_"@);
    }
}

/// A change of the favor gives a vendor this level and changes nothing else. A change of the money
/// gives a vendor this money and this most money, also as it is typed, and this reset, after which
/// the money is refilled anew; without a reset, the vendor keeps the one it has. Nothing else
/// changes.
pub proof fn changes_of_vendors_say_what_they_change(
    v: VendorView,
    level: u8,
    remaining: i64,
    cap: i64,
    reset_at: Timestamp,
)
    ensures
        VendorChange::Favor(level).applied(v) == (VendorView { favor_level: level, ..v }),
        (VendorChange::Gold { remaining, cap, reset_at: Some(reset_at) }).applied(v) == (VendorView {
            money: remaining,
            max_money: Some(cap),
            max_money_buf: signed_decimal(cap as int),
            reset_at: Some(reset_at.unix_nanos as int),
            ready_refilled: false,
            ..v
        }),
        (VendorChange::Gold { remaining, cap, reset_at: None }).applied(v) == (VendorView {
            money: remaining,
            max_money: Some(cap),
            max_money_buf: signed_decimal(cap as int),
            ..v
        }),
{
}

proof fn lemma_vendor_with_gold(v: VendorView, remaining: i64, reset_at_ms: i64, cap: i64)
    ensures
        ({
            let after = vendor_with_gold(v, remaining, reset_at_ms, cap);
            let known = 0 < reset_at_ms && reset_at_ms / 1000 <= 253402300799;
            &&& after.money == remaining
            &&& after.max_money == Some(cap)
            &&& after.max_money_buf == signed_decimal(cap as int)
            &&& known ==> after.reset_at == Some((reset_at_ms / 1000) * 1000000000)
                && !after.ready_refilled
            &&& !known ==> after.reset_at == v.reset_at && after.ready_refilled == v.ready_refilled
            &&& after == (VendorView {
                money: after.money,
                max_money: after.max_money,
                max_money_buf: after.max_money_buf,
                reset_at: after.reset_at,
                ready_refilled: after.ready_refilled,
                ..v
            })
        }),
{
}

/// A change of the money goes to the vendor whose screen is open: the first one with the key. That
/// vendor has then this money and this most money. A time of the reset that is positive and not
/// after the last second of the years of dates is taken over to the second, and the money is
/// refilled anew; any other time leaves the timer as it is. No other vendor changes, and nothing
/// else.
pub proof fn money_goes_to_the_open_vendor(
    state: AppView,
    npc_id: i64,
    key: Seq<char>,
    k: int,
    remaining: i64,
    reset_at_ms: i64,
    cap: i64,
    j: int,
)
    requires
        state.last_vendor_npc_id == Some(npc_id),
        state.npc_keys.contains_key(npc_id),
        state.npc_keys[npc_id] == key,
        is_first_with_key(state.persisted.vendors, key, k),
    ensures
        ({
            let new = state.after_event(
                LogEventView::VendorGoldUpdate { remaining, reset_at_ms, cap },
            );
            let before = state.persisted.vendors[k];
            let after = new.persisted.vendors[k];
            let known = 0 < reset_at_ms && reset_at_ms / 1000 <= 253402300799;
            &&& after.money == remaining
            &&& after.max_money == Some(cap)
            &&& after.max_money_buf == signed_decimal(cap as int)
            &&& known ==> after.reset_at == Some((reset_at_ms / 1000) * 1000000000)
                && !after.ready_refilled
            &&& !known ==> after.reset_at == before.reset_at && after.ready_refilled
                == before.ready_refilled
            &&& after == (VendorView {
                money: after.money,
                max_money: after.max_money,
                max_money_buf: after.max_money_buf,
                reset_at: after.reset_at,
                ready_refilled: after.ready_refilled,
                ..before
            })
            &&& new.persisted.vendors.len() == state.persisted.vendors.len()
            &&& 0 <= j < state.persisted.vendors.len() && j != k ==> new.persisted.vendors[j]
                == state.persisted.vendors[j]
            &&& new == (AppView {
                persisted: PersistedView { vendors: new.persisted.vendors, ..state.persisted },
                dirty: true,
                ..state
            })
        }),
{
    let f = |v: VendorView| vendor_with_gold(v, remaining, reset_at_ms, cap);
    assert(state.open_vendor_key() == Some(key));
    change_by_key_goes_to_the_first_with_the_key(state, key, f, k, j);
    lemma_vendor_with_gold(state.persisted.vendors[k], remaining, reset_at_ms, cap);
}

/// A change of the money of an open vendor who is not listed adds that vendor behind all others,
/// named by the key, with this money, this most money, and a timer where the time of the reset is
/// positive and not after the last second of the years of dates.
pub proof fn open_vendor_is_added_with_the_money(
    state: AppView,
    npc_id: i64,
    key: Seq<char>,
    remaining: i64,
    reset_at_ms: i64,
    cap: i64,
    j: int,
)
    requires
        state.last_vendor_npc_id == Some(npc_id),
        state.npc_keys.contains_key(npc_id),
        state.npc_keys[npc_id] == key,
        forall|i: int|
            0 <= i < state.persisted.vendors.len() ==> (#[trigger] state.persisted.vendors[i]).npc_key
                != Some(key),
    ensures
        ({
            let new = state.after_event(
                LogEventView::VendorGoldUpdate { remaining, reset_at_ms, cap },
            );
            let n = state.persisted.vendors.len() as int;
            &&& new.persisted.vendors.len() == n + 1
            &&& new.persisted.vendors[n] == (VendorView {
                npc_key: Some(key),
                name: name_from_key(key),
                money: remaining,
                max_money: Some(cap),
                max_money_buf: signed_decimal(cap as int),
                reset_at: if 0 < reset_at_ms && reset_at_ms / 1000 <= 253402300799 {
                    Some((reset_at_ms / 1000) * 1000000000)
                } else {
                    None
                },
                ..new_vendor()
            })
            &&& 0 <= j < n ==> new.persisted.vendors[j] == state.persisted.vendors[j]
            &&& new == (AppView {
                persisted: PersistedView { vendors: new.persisted.vendors, ..state.persisted },
                dirty: true,
                ..state
            })
        }),
{
    let f = |v: VendorView| vendor_with_gold(v, remaining, reset_at_ms, cap);
    assert(state.open_vendor_key() == Some(key));
    change_by_key_goes_to_the_first_with_the_key(state, key, f, 0, j);
    lemma_vendor_with_gold(vendor_from_key(key), remaining, reset_at_ms, cap);
}

/// A screen that opens is the open one from then on. Where the key of the character is known and
/// the word names a level, the first vendor with the key has this level, and no other vendor
/// changes; a vendor who is not listed is added behind all others with this level. Otherwise nothing
/// but the open screen changes.
pub proof fn favor_goes_to_the_vendor_of_the_screen(
    state: AppView,
    npc_id: i64,
    favor: Option<Seq<char>>,
    k: int,
    j: int,
)
    ensures
        ({
            let new = state.after_event(LogEventView::VendorScreen { npc_id, favor });
            let before = state.persisted.vendors;
            let after = new.persisted.vendors;
            let key = state.npc_keys[npc_id];
            let known = state.npc_keys.contains_key(npc_id) && favor is Some && level_of_word(
                favor->0,
            ) is Some;
            &&& new.last_vendor_npc_id == Some(npc_id)
            &&& !known ==> new == (AppView { last_vendor_npc_id: Some(npc_id), ..state })
            &&& known && is_first_with_key(before, key, k) ==> after.len() == before.len()
                && after[k] == (VendorView {
                favor_level: level_of_word(favor->0)->0,
                ..before[k]
            }) && (0 <= j < before.len() && j != k ==> after[j] == before[j])
            &&& known && (forall|i: int|
                0 <= i < before.len() ==> (#[trigger] before[i]).npc_key != Some(key)) ==> after.len()
                == before.len() + 1 && after[before.len() as int] == (VendorView {
                npc_key: Some(key),
                name: name_from_key(key),
                favor_level: level_of_word(favor->0)->0,
                ..new_vendor()
            }) && (0 <= j < before.len() ==> after[j] == before[j])
            &&& known ==> new == (AppView {
                persisted: PersistedView { vendors: after, ..state.persisted },
                dirty: true,
                last_vendor_npc_id: Some(npc_id),
                ..state
            })
        }),
{
    let opened = AppView { last_vendor_npc_id: Some(npc_id), ..state };
    if state.npc_keys.contains_key(npc_id) {
        if let Some(level) = named_level(favor) {
            let f = |v: VendorView| VendorView { favor_level: level, ..v };
            assert(opened.open_vendor_key() == Some(state.npc_keys[npc_id]));
            change_by_key_goes_to_the_first_with_the_key(
                opened,
                state.npc_keys[npc_id],
                f,
                k,
                j,
            );
        }
    }
}

/// The key that an interaction tells is that of the character from then on; the keys of all other
/// characters stay, and nothing else changes. An interaction that tells no key changes nothing, and
/// neither does money while no screen is open, or that of a character whose key is not known.
pub proof fn keys_of_characters_are_remembered(
    state: AppView,
    npc_id: i64,
    key: Seq<char>,
    other: i64,
    remaining: i64,
    reset_at_ms: i64,
    cap: i64,
)
    ensures
        ({
            let new = state.after_event(
                LogEventView::StartInteraction { npc_id, npc_key: Some(key) },
            );
            &&& new.npc_keys.contains_key(npc_id) && new.npc_keys[npc_id] == key
            &&& other != npc_id ==> (new.npc_keys.contains_key(other)
                <==> state.npc_keys.contains_key(other)) && new.npc_keys[other]
                == state.npc_keys[other]
            &&& new == (AppView { npc_keys: new.npc_keys, ..state })
        }),
        state.after_event(LogEventView::StartInteraction { npc_id, npc_key: None }) == state,
        state.last_vendor_npc_id is None || (state.last_vendor_npc_id == Some(npc_id)
            && !state.npc_keys.contains_key(npc_id)) ==> state.after_event(
            LogEventView::VendorGoldUpdate { remaining, reset_at_ms, cap },
        ) == state,
{
}

/// Events are applied one after the other, in their order.
pub proof fn events_are_applied_in_order(
    state: AppView,
    events: Seq<LogEventView>,
    event: LogEventView,
)
    ensures
        state.after_events(Seq::empty()) == state,
        state.after_events(events.push(event)) == state.after_events(events).after_event(event),
{
    assert(events.push(event).drop_last() == events);
}

} // verus!
