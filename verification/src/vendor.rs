//! A vendor: the money, the timer of its reset, and what is known of the vendor.

use vstd::prelude::*;

use crate::clock::countdown;
use crate::clock::is_instant;
use crate::clock::minutes_in;
use crate::clock::minutes_left;
use crate::clock::optional_instant;
use crate::clock::optional_is_instant;
use crate::clock::started_timer_has_its_minutes_left;
use crate::clock::time_left;
use crate::clock::Timestamp;
use crate::clock::MINUTE;
use crate::favor::clamp_level;
use crate::favor::clamped_level;
use crate::favor::is_favor_level;
use crate::log_line::optional_text;
use crate::number::decimal;
use crate::number::i64_text;
use crate::number::i64_value;
use crate::number::parse_i64;
use crate::number::signed_decimal;
use crate::number::written_number_reads_back;
use crate::state::VendorApp;
use crate::text::texts;
use crate::text::is_white_space;
use crate::text::trim;
use crate::text::trimmed;
use crate::text::trimmed_text_stays_as_it_is;
use crate::text::trimming_takes_off_what_is_blank;

verus! {

/// A vendor.
#[derive(Debug)]
pub struct Vendor {
    pub name: String,
    /// The key by which the player log names the vendor.
    pub npc_key: Option<String>,
    pub money: i64,
    /// The most money that the vendor has, which is the money after a reset.
    pub max_money: Option<i64>,
    pub buys: Vec<String>,
    pub likes: Vec<String>,
    pub favor_level: u8,
    /// When the reset occurs, or occurred.
    pub reset_at: Option<Timestamp>,
    /// The minutes between resets, where they are not the usual ones.
    pub reset_period_minutes: Option<i64>,
    /// Whether the money was refilled after the reset.
    pub ready_refilled: bool,
    /// The tag that is being typed for `buys`.
    pub draft_buy: String,
    /// The tag that is being typed for `likes`.
    pub draft_like: String,
    /// What is being typed for `max_money`.
    pub max_money_buf: String,
    /// Whether the overview shows the vendor.
    pub show_in_compact: bool,
}

/// A `Vendor` with its texts as sequences of characters and its instants as numbers.
pub struct VendorView {
    pub name: Seq<char>,
    pub npc_key: Option<Seq<char>>,
    pub money: i64,
    pub max_money: Option<i64>,
    pub buys: Seq<Seq<char>>,
    pub likes: Seq<Seq<char>>,
    pub favor_level: u8,
    pub reset_at: Option<int>,
    pub reset_period_minutes: Option<i64>,
    pub ready_refilled: bool,
    pub draft_buy: Seq<char>,
    pub draft_like: Seq<char>,
    pub max_money_buf: Seq<char>,
    pub show_in_compact: bool,
}

impl View for Vendor {
    type V = VendorView;

    open spec fn view(&self) -> VendorView {
        VendorView {
            name: self.name@,
            npc_key: optional_text(self.npc_key),
            money: self.money,
            max_money: self.max_money,
            buys: texts(self.buys@),
            likes: texts(self.likes@),
            favor_level: self.favor_level,
            reset_at: optional_instant(self.reset_at),
            reset_period_minutes: self.reset_period_minutes,
            ready_refilled: self.ready_refilled,
            draft_buy: self.draft_buy@,
            draft_like: self.draft_like@,
            max_money_buf: self.max_money_buf@,
            show_in_compact: self.show_in_compact,
        }
    }
}

impl VendorView {
    /// Whether the favor is one of the levels, and the reset at a time that a date can have.
    pub open spec fn is_valid(self) -> bool {
        is_favor_level(self.favor_level as int) && optional_is_instant(self.reset_at)
    }

    /// The minutes between resets: those of the vendor, or else the usual ones, but at least
    /// one.
    pub open spec fn reset_minutes(self, default_reset_minutes: i64) -> i64 {
        let minutes = match self.reset_period_minutes {
            Some(minutes) => minutes,
            None => default_reset_minutes,
        };
        if minutes < 1 {
            1
        } else {
            minutes
        }
    }

    /// When a timer ends that is started at `now`.
    pub open spec fn next_reset(self, default_reset_minutes: i64, now: int) -> int {
        now + self.reset_minutes(default_reset_minutes) * MINUTE
    }

    /// The vendor with as much money as the vendor can have, where that is known.
    pub open spec fn refilled(self) -> VendorView {
        match self.max_money {
            Some(max) => VendorView { money: max, ..self },
            None => self,
        }
    }

    /// Whether the reset has come and the money was not refilled since.
    pub open spec fn is_due(self, now: int) -> bool {
        self.reset_at matches Some(t) && t <= now && !self.ready_refilled
    }

    /// The vendor after a look at the clock: when the reset has come, the money is refilled,
    /// once.
    pub open spec fn after_due_reset(self, now: int) -> VendorView {
        if self.is_due(now) {
            VendorView { ready_refilled: true, ..self.refilled() }
        } else {
            self
        }
    }

    /// The vendor with a timer that is started at `now`.
    pub open spec fn with_timer_started(self, default_reset_minutes: i64, now: int) -> VendorView {
        VendorView {
            reset_at: Some(self.next_reset(default_reset_minutes, now)),
            ready_refilled: false,
            ..self
        }
    }

    /// The vendor without a timer.
    pub open spec fn with_timer_cleared(self) -> VendorView {
        VendorView { reset_at: None, ..self }
    }

    /// The vendor with minutes of its own between resets, which are the usual ones at first, or
    /// without.
    pub open spec fn with_override(self, enabled: bool, default_reset_minutes: i64) -> VendorView {
        VendorView {
            reset_period_minutes: if enabled {
                Some(
                    if default_reset_minutes < 1 {
                        1
                    } else {
                        default_reset_minutes
                    },
                )
            } else {
                None
            },
            ..self
        }
    }

    /// Whether what was typed for the most money is neither blank nor a number.
    pub open spec fn max_money_is_unreadable(self) -> bool {
        trimmed(self.max_money_buf).len() > 0 && i64_value(trimmed(self.max_money_buf)) is None
    }

    /// The vendor with the most money that was typed: unknown where nothing was, and the last
    /// one where it cannot be read.
    pub open spec fn with_typed_max_money(self) -> VendorView {
        if self.max_money_is_unreadable() {
            self
        } else {
            VendorView { max_money: i64_value(trimmed(self.max_money_buf)), ..self }
        }
    }

    /// How the most money is typed.
    pub open spec fn max_money_as_typed(self) -> Seq<char> {
        match self.max_money {
            Some(max) => signed_decimal(max as int),
            None => Seq::empty(),
        }
    }

    /// The vendor as it is after it was loaded: with nothing typed but the most money, and the
    /// favor brought to one of the levels.
    pub open spec fn as_loaded(self) -> VendorView {
        VendorView {
            draft_buy: Seq::empty(),
            draft_like: Seq::empty(),
            favor_level: clamped_level(self.favor_level as int) as u8,
            max_money_buf: self.max_money_as_typed(),
            ..self
        }
    }
}

/// A vendor of whom nothing is known yet.
pub open spec fn new_vendor() -> VendorView {
    VendorView {
        name: "New vendor"@,
        npc_key: None,
        money: 0,
        max_money: None,
        buys: seq!["weapons"@, "armor"@],
        likes: Seq::empty(),
        favor_level: 5,
        reset_at: None,
        reset_period_minutes: None,
        ready_refilled: false,
        draft_buy: Seq::empty(),
        draft_like: Seq::empty(),
        max_money_buf: Seq::empty(),
        show_in_compact: true,
    }
}

/// How the timer of a vendor is shown.
#[derive(Debug, PartialEq, Eq)]
pub enum TimerLabel {
    /// No timer was started.
    Unset,
    /// The reset has come.
    Ready(String),
    /// The time left until the reset.
    Running(String),
}

/// Whether `label` shows the time left at `now` until the reset.
pub open spec fn shows_timer(label: TimerLabel, reset_at: Option<int>, now: int) -> bool {
    match time_left(reset_at, now) {
        None => label is Unset,
        Some(left) => if left == 0 {
            label matches TimerLabel::Ready(text) && text@ == countdown(0) + " (ready)"@
        } else {
            label matches TimerLabel::Running(text) && text@ == countdown(minutes_in(left))
        },
    }
}

/// Whether `label` shows in the overview the whole minutes left.
pub open spec fn shows_minutes(label: TimerLabel, minutes: Option<i64>) -> bool {
    match minutes {
        None => label is Unset,
        Some(minutes) => if minutes == 0 {
            label matches TimerLabel::Ready(text) && text@ == countdown(0)
        } else {
            label matches TimerLabel::Running(text) && text@ == countdown(minutes as int)
        },
    }
}

impl Default for Vendor {
    fn default() -> (r: Vendor)
        ensures
            r@ == new_vendor(),
            r@.is_valid(),
    {
        let mut buys: Vec<String> = Vec::new();
        buys.push("weapons".to_owned());
        buys.push("armor".to_owned());
        let likes: Vec<String> = Vec::new();
        assert(texts(buys@) == seq!["weapons"@, "armor"@]);
        assert(texts(likes@) == Seq::<Seq<char>>::empty());
        Vendor {
            name: "New vendor".to_owned(),
            npc_key: None,
            money: 0,
            max_money: None,
            buys,
            likes,
            favor_level: 5,
            reset_at: None,
            reset_period_minutes: None,
            ready_refilled: false,
            draft_buy: String::new(),
            draft_like: String::new(),
            max_money_buf: String::new(),
            show_in_compact: true,
        }
    }
}

impl Vendor {
    /// Gives the vendor as much money as the vendor can have, where that is known.
    pub fn refill_money(&mut self)
        ensures
            final(self)@ == old(self)@.refilled(),
    {
        if let Some(max) = self.max_money {
            self.money = max;
        }
    }

    /// Refills the money when the reset has come, once, and tells whether it did.
    pub fn refill_when_due(&mut self, now: Timestamp) -> (r: bool)
        ensures
            r == old(self)@.is_due(now@),
            final(self)@ == old(self)@.after_due_reset(now@),
    {
        if let Some(reset_at) = self.reset_at {
            if now.unix_nanos >= reset_at.unix_nanos && !self.ready_refilled {
                self.refill_money();
                self.ready_refilled = true;
                return true;
            }
        }
        false
    }

    /// Starts the timer at `now`.
    pub fn start_timer(&mut self, default_reset_minutes: i64, now: Timestamp)
        requires
            is_instant(now@),
            is_instant(old(self)@.next_reset(default_reset_minutes, now@)),
        ensures
            final(self)@ == old(self)@.with_timer_started(default_reset_minutes, now@),
    {
        let minutes: i64 = VendorApp::effective_reset_minutes(default_reset_minutes, self);
        self.reset_at = Some(now.plus_minutes(minutes));
        self.ready_refilled = false;
    }

    /// Starts the timer at `now` and refills the money.
    pub fn start_timer_and_refill(&mut self, default_reset_minutes: i64, now: Timestamp)
        requires
            is_instant(now@),
            is_instant(old(self)@.next_reset(default_reset_minutes, now@)),
        ensures
            final(self)@ == old(self)@.with_timer_started(default_reset_minutes, now@).refilled(),
    {
        self.start_timer(default_reset_minutes, now);
        self.refill_money();
    }

    /// Drops the timer.
    pub fn clear_timer(&mut self)
        ensures
            final(self)@ == old(self)@.with_timer_cleared(),
    {
        self.reset_at = None;
    }

    /// Gives the vendor minutes of its own between resets, or takes them away.
    pub fn set_override(&mut self, enabled: bool, default_reset_minutes: i64)
        ensures
            final(self)@ == old(self)@.with_override(enabled, default_reset_minutes),
    {
        self.reset_period_minutes = if enabled {
            Some(
                if default_reset_minutes < 1 {
                    1
                } else {
                    default_reset_minutes
                },
            )
        } else {
            None
        };
    }

    /// Takes over what was typed for the most money, and tells whether it could be read.
    pub fn sync_max_money(&mut self) -> (r: bool)
        ensures
            r == !old(self)@.max_money_is_unreadable(),
            final(self)@ == old(self)@.with_typed_max_money(),
    {
        let typed = trim(self.max_money_buf.as_str());
        if typed.is_empty() {
            self.max_money = None;
            true
        } else {
            match parse_i64(typed) {
                Some(max) => {
                    self.max_money = Some(max);
                    true
                },
                None => false,
            }
        }
    }

    /// Whether what was typed for the most money is neither blank nor a number.
    pub fn max_money_unreadable(&self) -> (r: bool)
        ensures
            r == self@.max_money_is_unreadable(),
    {
        let typed = trim(self.max_money_buf.as_str());
        !typed.is_empty() && parse_i64(typed).is_none()
    }

    /// Brings a vendor that was loaded into the state in which it is shown.
    pub fn prepare_loaded(&mut self)
        ensures
            final(self)@ == old(self)@.as_loaded(),
            is_favor_level(final(self)@.favor_level as int),
    {
        self.draft_buy = String::new();
        self.draft_like = String::new();
        self.favor_level = clamp_level(self.favor_level);
        self.max_money_buf = match self.max_money {
            Some(max) => i64_text(max),
            None => String::new(),
        };
    }

    /// How the timer is shown at `now`.
    pub fn timer_label(&self, now: Timestamp) -> (r: TimerLabel)
        requires
            optional_is_instant(self@.reset_at),
            is_instant(now@),
        ensures
            shows_timer(r, self@.reset_at, now@),
    {
        match VendorApp::remaining_clamped_at(self.reset_at, now) {
            None => TimerLabel::Unset,
            Some(left) => {
                let mut text = VendorApp::fmt_d_h_m(left);
                if left.nanos == 0 {
                    text.append(" (ready)");
                    TimerLabel::Ready(text)
                } else {
                    TimerLabel::Running(text)
                }
            },
        }
    }
}

impl VendorApp {
    /// The minutes between resets of a vendor.
    pub fn effective_reset_minutes(default_reset_minutes: i64, v: &Vendor) -> (r: i64)
        ensures
            r == v@.reset_minutes(default_reset_minutes),
            r >= 1,
    {
        let minutes: i64 = v.reset_period_minutes.unwrap_or(default_reset_minutes);
        if minutes < 1 {
            1
        } else {
            minutes
        }
    }

    /// Whether a date can have the time at which a timer ends that is started at `now`.
    pub fn can_start_timer(default_reset_minutes: i64, v: &Vendor, now: Timestamp) -> (r: bool)
        requires
            is_instant(now@),
        ensures
            r == is_instant(v@.next_reset(default_reset_minutes, now@)),
    {
        now.can_add_minutes(VendorApp::effective_reset_minutes(default_reset_minutes, v))
    }

    /// How the overview shows the whole minutes left.
    pub fn minutes_label(minutes: Option<i64>) -> (r: TimerLabel)
        ensures
            shows_minutes(r, minutes),
    {
        match minutes {
            None => TimerLabel::Unset,
            Some(minutes) => {
                let text = VendorApp::fmt_d_h_m_from_minutes(minutes);
                if minutes == 0 {
                    TimerLabel::Ready(text)
                } else {
                    TimerLabel::Running(text)
                }
            },
        }
    }

    /// Whether the overview offers to reset a vendor: when the reset has come, to the minute, or
    /// when there is no timer.
    pub fn offers_reset(minutes: Option<i64>) -> (r: bool)
        ensures
            r == (minutes is None || minutes == Some(0i64)),
    {
        match minutes {
            Some(minutes) => minutes == 0,
            None => true,
        }
    }
}

/// The reset refills the money once: later looks at the clock change nothing.
pub proof fn due_reset_refills_once(v: VendorView, now: int, later: int)
    requires
        v.is_due(now),
    ensures
        v.after_due_reset(now).after_due_reset(later) == v.after_due_reset(now),
        v.after_due_reset(now).max_money matches Some(max) ==> v.after_due_reset(now).money == max,
{
}

/// Nothing happens to a vendor before the reset comes.
pub proof fn nothing_is_refilled_before_the_reset(v: VendorView, now: int)
    requires
        v.reset_at matches Some(t) ==> now < t,
    ensures
        v.after_due_reset(now) == v,
{
}

/// A timer that is started anew runs for its minutes and then refills the money again, and not
/// before.
pub proof fn started_timer_refills_again(
    v: VendorView,
    default_reset_minutes: i64,
    now: int,
    later: int,
)
    requires
        is_instant(now),
        is_instant(v.next_reset(default_reset_minutes, now)),
    ensures
        v.reset_minutes(default_reset_minutes) >= 1,
        minutes_left(v.with_timer_started(default_reset_minutes, now).reset_at, now) == Some(
            v.reset_minutes(default_reset_minutes),
        ),
        v.with_timer_started(default_reset_minutes, now).is_due(later) <==> v.next_reset(
            default_reset_minutes,
            now,
        ) <= later,
        !v.with_timer_started(default_reset_minutes, now).is_due(now),
{
    started_timer_has_its_minutes_left(now, v.reset_minutes(default_reset_minutes));
}

/// What is shown of the most money of a loaded vendor reads as the most money it has.
pub proof fn loaded_max_money_reads_back(v: VendorView)
    ensures
        v.as_loaded().with_typed_max_money() == v.as_loaded(),
        !v.as_loaded().max_money_is_unreadable(),
{
    match v.max_money {
        Some(max) => {
            written_number_reads_back(max);
            crate::log_laws::lemma_written_number(max);
        },
        None => {
            assert(trimmed(Seq::<char>::empty()) == Seq::<char>::empty());
        },
    }
}

/// A vendor is loaded as it was saved: what was being typed does not matter, and all else stays as
/// it was, where the favor is one of the levels.
pub proof fn vendor_is_loaded_as_it_was_saved(
    v: VendorView,
    draft_buy: Seq<char>,
    draft_like: Seq<char>,
    max_money_buf: Seq<char>,
)
    requires
        is_favor_level(v.favor_level as int),
    ensures
        (VendorView { draft_buy, draft_like, max_money_buf, ..v }).as_loaded() == (VendorView {
            draft_buy: Seq::empty(),
            draft_like: Seq::empty(),
            max_money_buf: v.max_money_as_typed(),
            ..v
        }),
{
}

/// Every change keeps a vendor valid, as long as its timer ends at a time that a date can have.
pub proof fn changes_keep_vendors_valid(
    v: VendorView,
    default_reset_minutes: i64,
    now: int,
    enabled: bool,
)
    requires
        v.is_valid(),
    ensures
        new_vendor().is_valid(),
        v.refilled().is_valid(),
        v.after_due_reset(now).is_valid(),
        v.with_timer_cleared().is_valid(),
        v.with_override(enabled, default_reset_minutes).is_valid(),
        v.with_typed_max_money().is_valid(),
        v.as_loaded().is_valid(),
        is_instant(v.next_reset(default_reset_minutes, now)) ==> v.with_timer_started(
            default_reset_minutes,
            now,
        ).is_valid(),
{
}

/// A timer that is started runs for the vendor's own minutes, whatever the usual ones are, and for
/// the usual ones where the vendor has none of its own; for one minute where that is less. Nothing
/// else changes but that the money is refilled anew.
pub proof fn started_timer_runs_for_the_minutes_of_the_vendor(
    v: VendorView,
    default_reset_minutes: i64,
    now: int,
)
    ensures
        ({
            let started = v.with_timer_started(default_reset_minutes, now);
            let minutes = v.reset_minutes(default_reset_minutes);
            &&& v.reset_period_minutes matches Some(own) ==> (own >= 1 ==> minutes == own
                && started.reset_at == Some(now + own * 60000000000))
            &&& v.reset_period_minutes is None && default_reset_minutes >= 1 ==> minutes
                == default_reset_minutes && started.reset_at == Some(
                now + default_reset_minutes * 60000000000,
            )
            &&& v.reset_period_minutes matches Some(own) ==> (own < 1 ==> minutes == 1
                && started.reset_at == Some(now + 60000000000))
            &&& v.reset_period_minutes is None && default_reset_minutes < 1 ==> minutes == 1
                && started.reset_at == Some(now + 60000000000)
            &&& started.reset_at == Some(v.next_reset(default_reset_minutes, now))
            &&& started == (VendorView {
                reset_at: started.reset_at,
                ready_refilled: false,
                ..v
            })
        }),
{
}

/// A vendor whose most money is known has just that after a refill, and one whose most money is
/// not keeps what it has. Nothing else changes.
pub proof fn refill_gives_the_most_money(v: VendorView)
    ensures
        v.max_money matches Some(max) ==> v.refilled().money == max,
        v.max_money is None ==> v.refilled().money == v.money,
        v.refilled() == (VendorView { money: v.refilled().money, ..v }),
{
}

/// A look at the clock never changes when a vendor resets, so that a reset that has come leaves no
/// time, and not no timer. It changes nothing but the money and whether it was refilled, and these
/// only where the reset has come and the money was not refilled since.
pub proof fn look_at_the_clock_keeps_the_timer(v: VendorView, now: int)
    ensures
        v.after_due_reset(now).reset_at == v.reset_at,
        v.after_due_reset(now) == (VendorView {
            money: v.after_due_reset(now).money,
            ready_refilled: v.after_due_reset(now).ready_refilled,
            ..v
        }),
        v.is_due(now) <==> !v.ready_refilled && v.reset_at is Some && v.reset_at->0 <= now,
        v.reset_at is None ==> v.after_due_reset(now) == v,
        v.reset_at matches Some(t) ==> (now < t ==> v.after_due_reset(now) == v),
        v.ready_refilled ==> v.after_due_reset(now) == v,
        v.reset_at matches Some(t) ==> (t <= now ==> v.after_due_reset(now).ready_refilled
            && time_left(v.after_due_reset(now).reset_at, now) == Some(0int)),
        v.reset_at matches Some(t) ==> (t <= now && !v.ready_refilled ==> v.after_due_reset(
            now,
        ).money == (match v.max_money {
            Some(max) => max,
            None => v.money,
        })),
{
}

/// A timer that is dropped is gone, and nothing else is.
pub proof fn dropped_timer_is_gone(v: VendorView)
    ensures
        v.with_timer_cleared().reset_at is None,
        v.with_timer_cleared() == (VendorView { reset_at: None, ..v }),
{
}

/// A vendor gets the usual minutes, but at least one, as minutes of its own, or has none of its
/// own. Nothing else changes.
pub proof fn override_starts_with_the_usual_minutes(v: VendorView, default_reset_minutes: i64)
    ensures
        default_reset_minutes >= 1 ==> v.with_override(true, default_reset_minutes)
            == (VendorView { reset_period_minutes: Some(default_reset_minutes), ..v }),
        default_reset_minutes < 1 ==> v.with_override(true, default_reset_minutes) == (VendorView {
            reset_period_minutes: Some(1),
            ..v
        }),
        v.with_override(false, default_reset_minutes) == (VendorView {
            reset_period_minutes: None,
            ..v
        }),
{
}

/// The most money is unknown where nothing but white space is typed for it, is the number that is
/// typed where one is, and stays what it was where something else is typed. Nothing else changes.
pub proof fn typed_max_money_is_taken_over(v: VendorView)
    ensures
        ({
            let typed = trimmed(v.max_money_buf);
            let new = v.with_typed_max_money();
            &&& typed.len() == 0 ==> new.max_money is None && !v.max_money_is_unreadable()
            &&& typed.len() > 0 && i64_value(typed) is Some ==> new.max_money == i64_value(typed)
                && !v.max_money_is_unreadable()
            &&& typed.len() > 0 && i64_value(typed) is None ==> new.max_money == v.max_money
                && v.max_money_is_unreadable()
            &&& new == (VendorView { max_money: new.max_money, ..v })
        }),
{
}

/// A number that is typed for the most money, with white space around it or without, is taken.
pub proof fn written_max_money_is_taken_over(
    v: VendorView,
    before: Seq<char>,
    max: i64,
    after: Seq<char>,
)
    requires
        forall|i: int| 0 <= i < before.len() ==> is_white_space(#[trigger] before[i]),
        forall|i: int| 0 <= i < after.len() ==> is_white_space(#[trigger] after[i]),
        v.max_money_buf == before + signed_decimal(max as int) + after,
    ensures
        v.with_typed_max_money().max_money == Some(max),
{
    let number = signed_decimal(max as int);
    crate::log_laws::lemma_written_number(max);
    written_number_reads_back(max);
    trimmed_text_stays_as_it_is(number);
    trimming_takes_off_what_is_blank(before, number, after);
}

/// Loading a vendor keeps the name, the key, the money, the most money, the tags, the reset, the
/// minutes between resets and the two marks. The favor is kept where it is a level, and is the
/// level next to it otherwise. Nothing is typed then but the most money, where it is known.
pub proof fn loading_keeps_what_is_known_of_a_vendor(v: VendorView)
    ensures
        ({
            let loaded = v.as_loaded();
            &&& loaded.name == v.name
            &&& loaded.npc_key == v.npc_key
            &&& loaded.money == v.money
            &&& loaded.max_money == v.max_money
            &&& loaded.buys == v.buys
            &&& loaded.likes == v.likes
            &&& loaded.reset_at == v.reset_at
            &&& loaded.reset_period_minutes == v.reset_period_minutes
            &&& loaded.ready_refilled == v.ready_refilled
            &&& loaded.show_in_compact == v.show_in_compact
            &&& 1 <= v.favor_level <= 11 ==> loaded.favor_level == v.favor_level
            &&& v.favor_level < 1 ==> loaded.favor_level == 1
            &&& v.favor_level > 11 ==> loaded.favor_level == 11
            &&& loaded.draft_buy.len() == 0
            &&& loaded.draft_like.len() == 0
            &&& v.max_money is None ==> loaded.max_money_buf.len() == 0
            &&& v.max_money matches Some(max) ==> loaded.max_money_buf == signed_decimal(max as int)
        }),
{
}

/// A vendor of whom nothing is known yet has a name that says so, no key, no money, no timer, the
/// middle one of the levels and two things to buy, and is shown in the overview.
pub proof fn new_vendor_is_neutral()
    ensures
        new_vendor().name == "New vendor"@,
        new_vendor().npc_key is None,
        new_vendor().money == 0,
        new_vendor().max_money is None,
        new_vendor().buys == seq!["weapons"@, "armor"@],
        new_vendor().likes.len() == 0,
        new_vendor().favor_level == 5,
        new_vendor().reset_at is None,
        new_vendor().reset_period_minutes is None,
        !new_vendor().ready_refilled,
        new_vendor().draft_buy.len() == 0,
        new_vendor().draft_like.len() == 0,
        new_vendor().max_money_buf.len() == 0,
        new_vendor().show_in_compact,
{
}

/// A timer is shown as missing only where there is none, as ready only where the reset has come,
/// and otherwise with the whole minutes that are left.
pub proof fn shown_timer_tells_the_time_left(label: TimerLabel, reset_at: int, now: int)
    requires
        is_instant(reset_at),
        is_instant(now),
    ensures
        shows_timer(label, None, now) <==> label is Unset,
        reset_at <= now ==> (shows_timer(label, Some(reset_at), now) <==> (label
            matches TimerLabel::Ready(text) && text@ == "0d 00h 00m (ready)"@)),
        now < reset_at ==> (shows_timer(label, Some(reset_at), now) <==> (label
            matches TimerLabel::Running(text) && text@ == countdown(
            (reset_at - now) / 60000000000,
        ))),
{
    lemma_no_time_is_shown();
    reveal_strlit("0d 00h 00m (ready)");
    reveal_strlit(" (ready)");
    assert(countdown(0) + " (ready)"@ =~= "0d 00h 00m (ready)"@);
}

/// In the overview a timer is shown as missing only where there is none, as ready only where no
/// whole minute is left, and otherwise with the minutes that are left.
pub proof fn shown_minutes_are_those_left(label: TimerLabel, minutes: i64)
    ensures
        shows_minutes(label, None) <==> label is Unset,
        shows_minutes(label, Some(0)) <==> (label matches TimerLabel::Ready(text) && text@
            == "0d 00h 00m"@),
        minutes != 0 ==> (shows_minutes(label, Some(minutes)) <==> (label
            matches TimerLabel::Running(text) && text@ == countdown(minutes as int))),
{
    lemma_no_time_is_shown();
}

proof fn lemma_no_time_is_shown()
    ensures
        countdown(0) == "0d 00h 00m"@,
        "0d 00h 00m"@ == seq!['0', 'd', ' ', '0', '0', 'h', ' ', '0', '0', 'm'],
{
    reveal_strlit("0d 00h 00m");
    reveal_strlit("d ");
    reveal_strlit("h ");
    reveal_strlit("m");
    assert(decimal(0) == seq!['0']);
    assert(countdown(0) =~= "0d 00h 00m"@);
    assert("0d 00h 00m"@ =~= seq!['0', 'd', ' ', '0', '0', 'h', ' ', '0', '0', 'm']);
}

/// A vendor is valid exactly where the favor is from 1 to 11, and the reset, where there is one, is
/// at a time that a date can have.
pub proof fn valid_vendors_have_a_level_and_a_date(v: VendorView)
    ensures
        v.is_valid() <==> 1 <= v.favor_level <= 11 && (v.reset_at matches Some(t) ==> is_instant(
            t,
        )),
{
}

/// The view of a vendor tells all that the vendor holds.
pub proof fn view_tells_all_of_a_vendor(v: Vendor)
    ensures
        v@.name == v.name@,
        v@.npc_key is Some <==> v.npc_key is Some,
        v.npc_key matches Some(key) ==> v@.npc_key == Some(key@),
        v@.money == v.money,
        v@.max_money == v.max_money,
        v@.buys == texts(v.buys@),
        v@.likes == texts(v.likes@),
        v@.favor_level == v.favor_level,
        v@.reset_at is Some <==> v.reset_at is Some,
        v.reset_at matches Some(t) ==> v@.reset_at == Some(t.unix_nanos as int),
        v@.reset_period_minutes == v.reset_period_minutes,
        v@.ready_refilled == v.ready_refilled,
        v@.draft_buy == v.draft_buy@,
        v@.draft_like == v.draft_like@,
        v@.max_money_buf == v.max_money_buf@,
        v@.show_in_compact == v.show_in_compact,
{
}

} // verus!
