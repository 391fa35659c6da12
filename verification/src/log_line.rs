//! The lines of the player log that speak of vendors.

use vstd::prelude::*;

use crate::number::i64_value;
use crate::number::parse_i64;
use crate::text::contains;
use crate::text::find;
use crate::text::lines;
use crate::text::lines_of;
use crate::text::occurs_in;
use crate::text::position;
use crate::text::lemma_position;
use crate::text::split;
use crate::text::split_at_char;
use crate::text::texts;
use crate::text::trim;
use crate::text::trimmed;

verus! {

/// What a line of the player log tells about vendors.
#[derive(Debug, Clone, PartialEq, Eq)]
pub enum LogEvent {
    /// The player begins to talk to a character.
    StartInteraction { npc_id: i64, npc_key: Option<String> },
    /// The screen of a vendor opens.
    VendorScreen { npc_id: i64, favor: Option<String> },
    /// The money of the vendor whose screen is open changes.
    VendorGoldUpdate { remaining: i64, reset_at_ms: i64, cap: i64 },
}

/// A `LogEvent` with its texts as sequences of characters.
pub enum LogEventView {
    StartInteraction { npc_id: i64, npc_key: Option<Seq<char>> },
    VendorScreen { npc_id: i64, favor: Option<Seq<char>> },
    VendorGoldUpdate { remaining: i64, reset_at_ms: i64, cap: i64 },
}

/// The text of an optional string.
pub open spec fn optional_text(s: Option<String>) -> Option<Seq<char>> {
    match s {
        Some(s) => Some(s@),
        None => None,
    }
}

impl View for LogEvent {
    type V = LogEventView;

    open spec fn view(&self) -> LogEventView {
        match *self {
            LogEvent::StartInteraction { npc_id, npc_key } => LogEventView::StartInteraction {
                npc_id,
                npc_key: optional_text(npc_key),
            },
            LogEvent::VendorScreen { npc_id, favor } => LogEventView::VendorScreen {
                npc_id,
                favor: optional_text(favor),
            },
            LogEvent::VendorGoldUpdate { remaining, reset_at_ms, cap } =>
                LogEventView::VendorGoldUpdate { remaining, reset_at_ms, cap },
        }
    }
}

/// The view of an optional event.
pub open spec fn event_view(event: Option<LogEvent>) -> Option<LogEventView> {
    match event {
        Some(event) => Some(event@),
        None => None,
    }
}

/// The views of a list of events.
pub open spec fn event_views(events: Seq<LogEvent>) -> Seq<LogEventView> {
    events.map_values(|event: LogEvent| event@)
}

/// What opens the arguments of an interaction that starts.
pub open spec fn start_interaction_call() -> Seq<char> {
    "LocalPlayer: ProcessStartInteraction("@
}

/// What opens the arguments of a vendor screen.
pub open spec fn vendor_screen_call() -> Seq<char> {
    "LocalPlayer: ProcessVendorScreen("@
}

/// What opens the arguments of a change of a vendor's money.
pub open spec fn vendor_gold_call() -> Seq<char> {
    "LocalPlayer: ProcessVendorUpdateAvailableGold("@
}

/// What stands in `line` between the first `call` and the first closing parenthesis after it.
pub open spec fn call_arguments(line: Seq<char>, call: Seq<char>) -> Option<Seq<char>> {
    match position(line, call) {
        None => None,
        Some(k) => {
            let rest = line.skip(k + call.len());
            match position(rest, ")"@) {
                None => None,
                Some(end) => Some(rest.take(end)),
            }
        },
    }
}

/// The `n`-th of the arguments, which commas part, without the white space around it.
pub open spec fn argument(arguments: Seq<char>, n: int) -> Option<Seq<char>> {
    let parts = split(arguments, ',');
    if n < parts.len() {
        Some(trimmed(parts[n]))
    } else {
        None
    }
}

/// The number that the `n`-th argument writes.
pub open spec fn number_argument(arguments: Seq<char>, n: int) -> Option<i64> {
    match argument(arguments, n) {
        Some(text) => i64_value(text),
        None => None,
    }
}

/// What stands between the first two quotation marks, or after the only one, without the white
/// space around it and where it is not empty.
pub open spec fn quoted_argument(arguments: Seq<char>) -> Option<Seq<char>> {
    let parts = split(arguments, '"');
    if parts.len() > 1 && trimmed(parts[1]).len() > 0 {
        Some(trimmed(parts[1]))
    } else {
        None
    }
}

/// The event of a line that tells of an interaction that starts: its first argument is the
/// number of the character, and its quoted one the key.
pub open spec fn start_interaction(line: Seq<char>) -> Option<LogEventView> {
    match call_arguments(line, start_interaction_call()) {
        None => None,
        Some(arguments) => match number_argument(arguments, 0) {
            None => None,
            Some(npc_id) => Some(
                LogEventView::StartInteraction { npc_id, npc_key: quoted_argument(arguments) },
            ),
        },
    }
}

/// The event of a line that tells of a vendor screen: its arguments start with the number of the
/// character and the word for the favor.
pub open spec fn vendor_screen(line: Seq<char>) -> Option<LogEventView> {
    match call_arguments(line, vendor_screen_call()) {
        None => None,
        Some(arguments) => match number_argument(arguments, 0) {
            None => None,
            Some(npc_id) => Some(
                LogEventView::VendorScreen { npc_id, favor: argument(arguments, 1) },
            ),
        },
    }
}

/// The event of a line that tells of a change of a vendor's money: its arguments start with the
/// money left, the time of the reset in milliseconds and the most money.
pub open spec fn vendor_update_gold(line: Seq<char>) -> Option<LogEventView> {
    match call_arguments(line, vendor_gold_call()) {
        None => None,
        Some(arguments) => match (
            number_argument(arguments, 0),
            number_argument(arguments, 1),
            number_argument(arguments, 2),
        ) {
            (Some(remaining), Some(reset_at_ms), Some(cap)) => Some(
                LogEventView::VendorGoldUpdate { remaining, reset_at_ms, cap },
            ),
            _ => None,
        },
    }
}

/// The event of a line: the first of the three calls that occurs in it decides how it is read.
pub open spec fn log_event(line: Seq<char>) -> Option<LogEventView> {
    if occurs_in(line, start_interaction_call()) {
        start_interaction(line)
    } else if occurs_in(line, vendor_screen_call()) {
        vendor_screen(line)
    } else if occurs_in(line, vendor_gold_call()) {
        vendor_update_gold(line)
    } else {
        None
    }
}

/// The events of a list of lines, in their order.
pub open spec fn events_of_lines(list: Seq<Seq<char>>) -> Seq<LogEventView>
    decreases list.len(),
{
    if list.len() == 0 {
        Seq::empty()
    } else {
        match log_event(list.last()) {
            Some(event) => events_of_lines(list.drop_last()).push(event),
            None => events_of_lines(list.drop_last()),
        }
    }
}

/// What stands in `line` between the first `call` and the first closing parenthesis after it.
fn arguments_of(line: &str, call: &str) -> (r: Option<String>)
    ensures
        optional_text(r) == call_arguments(line@, call@),
{
    proof {
        lemma_position(line@, call@);
        reveal_strlit(")");
    }
    match find(line, call) {
        None => None,
        Some(k) => {
            let length: usize = line.unicode_len();
            let from: usize = k + call.unicode_len();
            let rest = line.substring_char(from, length);
            assert(rest@ == line@.skip(from as int));
            proof {
                lemma_position(rest@, ")"@);
            }
            match find(rest, ")") {
                None => None,
                Some(end) => {
                    let inside = rest.substring_char(0, end);
                    assert(inside@ == rest@.take(end as int));
                    Some(inside.to_owned())
                },
            }
        },
    }
}

/// The `n`-th of the arguments, without the white space around it.
fn argument_text(arguments: &str, n: usize) -> (r: Option<String>)
    ensures
        optional_text(r) == argument(arguments@, n as int),
{
    let parts = split_at_char(arguments, ',');
    if n < parts.len() {
        assert(texts(parts@)[n as int] == parts[n as int]@);
        Some(trim(parts[n].as_str()).to_owned())
    } else {
        None
    }
}

/// The number that the `n`-th argument writes.
fn argument_number(arguments: &str, n: usize) -> (r: Option<i64>)
    ensures
        r == number_argument(arguments@, n as int),
{
    match argument_text(arguments, n) {
        Some(text) => parse_i64(text.as_str()),
        None => None,
    }
}

/// What stands between quotation marks, where it is not blank.
fn quoted_text(arguments: &str) -> (r: Option<String>)
    ensures
        optional_text(r) == quoted_argument(arguments@),
{
    let parts = split_at_char(arguments, '"');
    if parts.len() > 1 {
        assert(texts(parts@)[1] == parts[1]@);
        let text = trim(parts[1].as_str());
        if text.is_empty() {
            None
        } else {
            Some(text.to_owned())
        }
    } else {
        None
    }
}

/// Reads a line that tells of an interaction that starts.
pub fn parse_start_interaction(line: &str) -> (r: Option<LogEvent>)
    ensures
        event_view(r) == start_interaction(line@),
{
    match arguments_of(line, "LocalPlayer: ProcessStartInteraction(") {
        None => None,
        Some(arguments) => match argument_number(arguments.as_str(), 0) {
            None => None,
            Some(npc_id) => {
                let npc_key = quoted_text(arguments.as_str());
                Some(LogEvent::StartInteraction { npc_id, npc_key })
            },
        },
    }
}

/// Reads a line that tells of a vendor screen.
pub fn parse_vendor_screen(line: &str) -> (r: Option<LogEvent>)
    ensures
        event_view(r) == vendor_screen(line@),
{
    match arguments_of(line, "LocalPlayer: ProcessVendorScreen(") {
        None => None,
        Some(arguments) => match argument_number(arguments.as_str(), 0) {
            None => None,
            Some(npc_id) => {
                let favor = argument_text(arguments.as_str(), 1);
                Some(LogEvent::VendorScreen { npc_id, favor })
            },
        },
    }
}

/// Reads a line that tells of a change of a vendor's money.
pub fn parse_vendor_update_gold(line: &str) -> (r: Option<LogEvent>)
    ensures
        event_view(r) == vendor_update_gold(line@),
{
    match arguments_of(line, "LocalPlayer: ProcessVendorUpdateAvailableGold(") {
        None => None,
        Some(arguments) => {
            let remaining = argument_number(arguments.as_str(), 0);
            let reset_at_ms = argument_number(arguments.as_str(), 1);
            let cap = argument_number(arguments.as_str(), 2);
            match (remaining, reset_at_ms, cap) {
                (Some(remaining), Some(reset_at_ms), Some(cap)) => Some(
                    LogEvent::VendorGoldUpdate { remaining, reset_at_ms, cap },
                ),
                _ => None,
            }
        },
    }
}

/// Reads a line of the player log: nothing comes of a line that does not tell of vendors.
pub fn parse_log_line(line: &str) -> (r: Option<LogEvent>)
    ensures
        event_view(r) == log_event(line@),
{
    if contains(line, "LocalPlayer: ProcessStartInteraction(") {
        return parse_start_interaction(line);
    }
    if contains(line, "LocalPlayer: ProcessVendorScreen(") {
        return parse_vendor_screen(line);
    }
    if contains(line, "LocalPlayer: ProcessVendorUpdateAvailableGold(") {
        return parse_vendor_update_gold(line);
    }
    None
}

/// The events of the lines of a text, in their order.
pub fn parse_log_text(text: &str) -> (r: Vec<LogEvent>)
    ensures
        event_views(r@) == events_of_lines(lines(text@)),
{
    let list = lines_of(text);
    let mut events: Vec<LogEvent> = Vec::new();
    let mut i: usize = 0;
    assert(event_views(events@) == events_of_lines(texts(list@).take(0)));
    while i < list.len()
        invariant
            i <= list.len(),
            event_views(events@) == events_of_lines(texts(list@).take(i as int)),
        decreases list.len() - i,
    {
        let ghost done = texts(list@).take(i + 1);
        let ghost before = event_views(events@);
        assert(done.drop_last() == texts(list@).take(i as int));
        assert(done.last() == list[i as int]@);
        match parse_log_line(list[i].as_str()) {
            Some(event) => {
                let ghost view = event@;
                events.push(event);
                assert(event_views(events@) == before.push(view));
            },
            None => {},
        }
        i = i + 1;
    }
    assert(texts(list@).take(list.len() as int) == texts(list@));
    events
}

} // verus!
