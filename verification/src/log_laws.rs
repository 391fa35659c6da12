//! What holds of reading the player log as a whole.

use vstd::prelude::*;

use crate::log_line::argument;
use crate::log_line::call_arguments;
use crate::log_line::event_view;
use crate::log_line::event_views;
use crate::log_line::events_of_lines;
use crate::log_line::log_event;
use crate::log_line::number_argument;
use crate::log_line::quoted_argument;
use crate::log_line::start_interaction;
use crate::log_line::start_interaction_call;
use crate::log_line::vendor_gold_call;
use crate::log_line::vendor_screen;
use crate::log_line::vendor_screen_call;
use crate::log_line::vendor_update_gold;
use crate::log_line::LogEvent;
use crate::log_line::LogEventView;
use crate::number::decimal_stands_for_its_number;
use crate::number::i64_value;
use crate::number::is_digit;
use crate::number::signed_decimal;
use crate::number::written_number_reads_back;
use crate::text::first_char;
use crate::text::is_white_space;
use crate::text::lemma_first_char;
use crate::text::lemma_first_char_unique;
use crate::text::lemma_position;
use crate::text::lines;
use crate::text::lines_end_at_line_feeds;
use crate::text::matches_at;
use crate::text::occurs_in;
use crate::text::position;
use crate::text::split;
use crate::text::split_cuts_at_each_separator;
use crate::text::trimmed;
use crate::text::trim_start;
use crate::text::without_carriage_return;

verus! {

/// Nothing comes of a line in which none of the three calls occurs.
pub proof fn other_lines_give_no_event(line: Seq<char>)
    requires
        !occurs_in(line, start_interaction_call()),
        !occurs_in(line, vendor_screen_call()),
        !occurs_in(line, vendor_gold_call()),
    ensures
        log_event(line) is None,
{
}

proof fn lemma_lines_after_line_feed(a: Seq<char>, b: Seq<char>)
    ensures
        lines(a + seq!['\n'] + b) == lines(a + seq!['\n']) + lines(b),
    decreases a.len(),
{
    let ended = a + seq!['\n'];
    let whole = ended + b;
    let k = first_char(a, '\n');
    lemma_first_char(a, '\n');
    assert forall|i: int| 0 <= i < k implies ended[i] != '\n' && whole[i] != '\n' by {
        assert(ended[i] == a[i] && whole[i] == a[i]);
    }
    if k < a.len() {
        assert(ended[k] == a[k] && whole[k] == a[k]);
    } else {
        assert(ended[k] == '\n' && whole[k] == '\n');
    }
    lemma_first_char_unique(ended, '\n', k);
    lemma_first_char_unique(whole, '\n', k);
    assert(whole.take(k) == ended.take(k));
    if k < a.len() {
        lemma_lines_after_line_feed(a.skip(k + 1), b);
        assert(whole.skip(k + 1) == a.skip(k + 1) + seq!['\n'] + b);
        assert(ended.skip(k + 1) == a.skip(k + 1) + seq!['\n']);
    } else {
        assert(whole.skip(k + 1) == b);
        assert(lines(ended.skip(k + 1)).len() == 0);
    }
    let line = without_carriage_return(ended.take(k));
    assert(lines(whole) == seq![line] + lines(whole.skip(k + 1)));
    assert(lines(ended) == seq![line] + lines(ended.skip(k + 1)));
    assert(lines(whole) =~= lines(ended) + lines(b));
}

proof fn lemma_events_of_more_lines(a: Seq<Seq<char>>, b: Seq<Seq<char>>)
    ensures
        events_of_lines(a + b) == events_of_lines(a) + events_of_lines(b),
    decreases b.len(),
{
    if b.len() == 0 {
        assert(a + b == a);
        assert(events_of_lines(a) + events_of_lines(b) == events_of_lines(a));
    } else {
        lemma_events_of_more_lines(a, b.drop_last());
        assert((a + b).drop_last() == a + b.drop_last());
        assert((a + b).last() == b.last());
        assert(events_of_lines(a + b) =~= events_of_lines(a) + events_of_lines(b));
    }
}

/// A log that is cut after a line feed gives the same events, in the same order, whether it is
/// read as a whole or in the two pieces.
pub proof fn pieces_give_the_events_of_the_whole(a: Seq<char>, b: Seq<char>)
    ensures
        events_of_lines(lines(a + seq!['\n'] + b)) == events_of_lines(lines(a + seq!['\n']))
            + events_of_lines(lines(b)),
{
    lemma_lines_after_line_feed(a, b);
    lemma_events_of_more_lines(lines(a + seq!['\n']), lines(b));
}

/// Whether `c` stands nowhere in `s`.
pub open spec fn free_of(s: Seq<char>, c: char) -> bool {
    forall|i: int| 0 <= i < s.len() ==> s[i] != c
}

proof fn lemma_split_first(a: Seq<char>, separator: char, b: Seq<char>)
    requires
        free_of(a, separator),
    ensures
        split(a + seq![separator] + b, separator) == seq![a] + split(b, separator),
{
    let whole = a + seq![separator] + b;
    lemma_first_char_unique(whole, separator, a.len() as int);
    assert(whole.take(a.len() as int) == a);
    assert(whole.skip(a.len() as int + 1) == b);
}

proof fn lemma_split_only(a: Seq<char>, separator: char)
    requires
        free_of(a, separator),
    ensures
        split(a, separator) == seq![a],
{
    lemma_first_char_unique(a, separator, a.len() as int);
}

proof fn lemma_trimmed_same(s: Seq<char>)
    requires
        s.len() > 0,
        !is_white_space(s[0]),
        !is_white_space(s.last()),
    ensures
        trimmed(s) == s,
        trimmed(seq![' '] + s) == s,
{
    let t = seq![' '] + s;
    assert(t.drop_first() == s);
    assert(trim_start(t) == trim_start(s));
}

/// A written number holds nothing that parts arguments, and no white space at its ends.
pub proof fn lemma_written_number(n: i64)
    ensures
        free_of(signed_decimal(n as int), ','),
        free_of(signed_decimal(n as int), ')'),
        free_of(signed_decimal(n as int), '"'),
        signed_decimal(n as int).len() > 0,
        trimmed(signed_decimal(n as int)) == signed_decimal(n as int),
        trimmed(seq![' '] + signed_decimal(n as int)) == signed_decimal(n as int),
{
    let size: nat = if n < 0 {
        (-n) as nat
    } else {
        n as nat
    };
    decimal_stands_for_its_number(size);
    let d = crate::number::decimal(size);
    let s = signed_decimal(n as int);
    assert forall|i: int| 0 <= i < s.len() implies s[i] == '-' || is_digit(#[trigger] s[i]) by {
        if n < 0 {
            if i > 0 {
                assert(is_digit(d[i - 1]));
            }
        } else {
            assert(is_digit(d[i]));
        }
    }
    assert(s[0] == '-' || is_digit(s[0]));
    assert(s.last() == s[s.len() - 1]);
    assert(s[s.len() - 1] == '-' || is_digit(s[s.len() - 1]));
    lemma_trimmed_same(s);
}

proof fn lemma_call_arguments(
    before: Seq<char>,
    call: Seq<char>,
    arguments: Seq<char>,
    after: Seq<char>,
)
    requires
        position(before + call, call) == Some(before.len() as int),
        free_of(arguments, ')'),
    ensures
        call_arguments(before + call + arguments + seq![')'] + after, call) == Some(arguments),
{
    reveal_strlit(")");
    let line = before + call + arguments + seq![')'] + after;
    let k = before.len() as int;
    lemma_position(before + call, call);
    lemma_position(line, call);
    assert(line.subrange(k, k + call.len()) == call);
    assert(matches_at(line, call, k));
    let found = position(line, call)->0;
    if found < k {
        assert((before + call).subrange(found, found + call.len()) == line.subrange(
            found,
            found + call.len(),
        ));
        assert(matches_at(before + call, call, found));
    }
    assert(found == k);
    let rest = line.skip(k + call.len());
    assert(rest == arguments + seq![')'] + after);
    let end = arguments.len() as int;
    assert(rest.subrange(end, end + 1) =~= ")"@);
    assert(matches_at(rest, ")"@, end));
    lemma_position(rest, ")"@);
    let closing = position(rest, ")"@)->0;
    if closing < end {
        assert(rest.subrange(closing, closing + 1)[0] == ')');
        assert(rest[closing] == arguments[closing]);
    }
    assert(rest.take(end) == arguments);
}

/// A line that tells the number and the key of the character that the player starts to talk to
/// is read as just that. Between them may stand any arguments without quotation marks and
/// closing parentheses.
pub proof fn written_start_interaction_reads_back(
    before: Seq<char>,
    npc_id: i64,
    between: Seq<char>,
    npc_key: Seq<char>,
    after: Seq<char>,
)
    requires
        position(before + start_interaction_call(), start_interaction_call()) == Some(
            before.len() as int,
        ),
        free_of(between, '"'),
        free_of(between, ')'),
        free_of(npc_key, '"'),
        free_of(npc_key, ')'),
        npc_key.len() > 0,
        trimmed(npc_key) == npc_key,
    ensures
        log_event(
            before + start_interaction_call() + (signed_decimal(npc_id as int) + seq![',']
                + between + seq!['"'] + npc_key + seq!['"']) + seq![')'] + after,
        ) == Some(LogEventView::StartInteraction { npc_id, npc_key: Some(npc_key) }),
{
    let number = signed_decimal(npc_id as int);
    let arguments = number + seq![','] + between + seq!['"'] + npc_key + seq!['"'];
    let line = before + start_interaction_call() + arguments + seq![')'] + after;
    lemma_written_number(npc_id);
    written_number_reads_back(npc_id);
    lemma_call_arguments(before, start_interaction_call(), arguments, after);
    lemma_position(line, start_interaction_call());
    let tail = between + seq!['"'] + npc_key + seq!['"'];
    assert(arguments == number + seq![','] + tail);
    lemma_split_first(number, ',', tail);
    assert(split(arguments, ',')[0] == number);
    let opening = number + seq![','] + between;
    let closing: Seq<char> = Seq::empty();
    assert(arguments == opening + seq!['"'] + (npc_key + seq!['"'] + closing));
    lemma_split_first(opening, '"', npc_key + seq!['"'] + closing);
    lemma_split_first(npc_key, '"', closing);
    assert(split(arguments, '"')[1] == npc_key);
}

/// A line that tells the number of a vendor and a word for the favor is read as just that.
/// Any arguments without closing parentheses may follow.
pub proof fn written_vendor_screen_reads_back(
    before: Seq<char>,
    npc_id: i64,
    favor: Seq<char>,
    more: Seq<char>,
    after: Seq<char>,
)
    requires
        position(before + vendor_screen_call(), vendor_screen_call()) == Some(
            before.len() as int,
        ),
        free_of(favor, ','),
        free_of(favor, ')'),
        free_of(more, ')'),
    ensures
        ({
            let line = before + vendor_screen_call() + (signed_decimal(npc_id as int) + seq![',']
                + favor + seq![','] + more) + seq![')'] + after;
            !occurs_in(line, start_interaction_call()) ==> log_event(line) == Some(
                LogEventView::VendorScreen { npc_id, favor: Some(trimmed(favor)) },
            )
        }),
{
    let number = signed_decimal(npc_id as int);
    let arguments = number + seq![','] + favor + seq![','] + more;
    let line = before + vendor_screen_call() + arguments + seq![')'] + after;
    lemma_written_number(npc_id);
    written_number_reads_back(npc_id);
    lemma_call_arguments(before, vendor_screen_call(), arguments, after);
    lemma_position(line, vendor_screen_call());
    let tail = favor + seq![','] + more;
    assert(arguments == number + seq![','] + tail);
    lemma_split_first(number, ',', tail);
    lemma_split_first(favor, ',', more);
    assert(split(arguments, ',')[0] == number);
    assert(split(arguments, ',')[1] == favor);
}

/// A line that tells the money left, the time of the reset and the most money is read as just
/// that, for all numbers.
pub proof fn written_gold_update_reads_back(
    before: Seq<char>,
    remaining: i64,
    reset_at_ms: i64,
    cap: i64,
    after: Seq<char>,
)
    requires
        position(before + vendor_gold_call(), vendor_gold_call()) == Some(before.len() as int),
    ensures
        ({
            let line = before + vendor_gold_call() + (signed_decimal(remaining as int) + seq![',']
                + (seq![' '] + signed_decimal(reset_at_ms as int) + seq![','] + (seq![' ']
                + signed_decimal(cap as int)))) + seq![')'] + after;
            !occurs_in(line, start_interaction_call()) && !occurs_in(line, vendor_screen_call())
                ==> log_event(line) == Some(
                LogEventView::VendorGoldUpdate { remaining, reset_at_ms, cap },
            )
        }),
{
    let first = signed_decimal(remaining as int);
    let second = seq![' '] + signed_decimal(reset_at_ms as int);
    let third = seq![' '] + signed_decimal(cap as int);
    let arguments = first + seq![','] + (second + seq![','] + third);
    let line = before + vendor_gold_call() + arguments + seq![')'] + after;
    lemma_written_number(remaining);
    lemma_written_number(reset_at_ms);
    lemma_written_number(cap);
    written_number_reads_back(remaining);
    written_number_reads_back(reset_at_ms);
    written_number_reads_back(cap);
    lemma_call_arguments(before, vendor_gold_call(), arguments, after);
    lemma_position(line, vendor_gold_call());
    lemma_split_first(first, ',', second + seq![','] + third);
    lemma_split_first(second, ',', third);
    lemma_split_only(third, ',');
    assert(split(arguments, ',') =~= seq![first, second, third]);
}

/// The events of lines come line by line: a line tells the event that is read from it, wherever in
/// the line the call stands, or none where none is read, and more lines tell their events after
/// those of the lines before.
pub proof fn events_come_line_by_line(a: Seq<Seq<char>>, line: Seq<char>, b: Seq<Seq<char>>)
    ensures
        events_of_lines(Seq::empty()).len() == 0,
        log_event(line) matches Some(event) ==> events_of_lines(seq![line]) == seq![event],
        log_event(line) is None ==> events_of_lines(seq![line]).len() == 0,
        events_of_lines(a + b) == events_of_lines(a) + events_of_lines(b),
{
    reveal_with_fuel(events_of_lines, 2);
    assert(seq![line].drop_last() == Seq::<Seq<char>>::empty());
    assert(seq![line].last() == line);
    lemma_events_of_more_lines(a, b);
}

/// A line of a log tells its event, whatever lines stand before and after it: the events of the log
/// are those of the lines before, the one of the line where there is one, and those of the lines
/// after.
pub proof fn line_of_a_log_tells_its_event(before: Seq<char>, line: Seq<char>, after: Seq<char>)
    requires
        free_of(line, '\n'),
        line.len() > 0 ==> line.last() != '\r',
    ensures
        ({
            let events = events_of_lines(
                lines(before + seq!['\n'] + (line + seq!['\n'] + after)),
            );
            let told_before = events_of_lines(lines(before + seq!['\n']));
            let told_after = events_of_lines(lines(after));
            &&& log_event(line) matches Some(event) ==> events == told_before + seq![event]
                + told_after
            &&& log_event(line) is None ==> events == told_before + told_after
        }),
        log_event(line) matches Some(event) ==> events_of_lines(lines(line + seq!['\n'] + after))
            == seq![event] + events_of_lines(lines(after)),
{
    pieces_give_the_events_of_the_whole(before, line + seq!['\n'] + after);
    lines_end_at_line_feeds(line, after);
    events_come_line_by_line(seq![line], line, lines(after));
    let events = events_of_lines(lines(before + seq!['\n'] + (line + seq!['\n'] + after)));
    let told_before = events_of_lines(lines(before + seq!['\n']));
    let told_after = events_of_lines(lines(after));
    if let Some(event) = log_event(line) {
        assert(events =~= told_before + seq![event] + told_after);
    } else {
        assert(events_of_lines(seq![line]) + told_after =~= told_after);
    }
}

/// A log of one line that tells the money left, the time of the reset and the most money tells just
/// that, whatever stands in the line before the call, such as the time at which it was written.
pub proof fn written_gold_update_in_a_log_is_told(
    before: Seq<char>,
    remaining: i64,
    reset_at_ms: i64,
    cap: i64,
    after: Seq<char>,
)
    requires
        position(before + vendor_gold_call(), vendor_gold_call()) == Some(before.len() as int),
        ({
            let line = before + vendor_gold_call() + (signed_decimal(remaining as int) + seq![',']
                + (seq![' '] + signed_decimal(reset_at_ms as int) + seq![','] + (seq![' ']
                + signed_decimal(cap as int)))) + seq![')'] + after;
            &&& free_of(line, '\n')
            &&& line.last() != '\r'
            &&& !occurs_in(line, start_interaction_call())
            &&& !occurs_in(line, vendor_screen_call())
        }),
    ensures
        ({
            let line = before + vendor_gold_call() + (signed_decimal(remaining as int) + seq![',']
                + (seq![' '] + signed_decimal(reset_at_ms as int) + seq![','] + (seq![' ']
                + signed_decimal(cap as int)))) + seq![')'] + after;
            events_of_lines(lines(line + seq!['\n'])) == seq![
                LogEventView::VendorGoldUpdate { remaining, reset_at_ms, cap },
            ]
        }),
{
    let line = before + vendor_gold_call() + (signed_decimal(remaining as int) + seq![','] + (seq![
        ' ',
    ] + signed_decimal(reset_at_ms as int) + seq![','] + (seq![' '] + signed_decimal(cap as int))))
        + seq![')'] + after;
    written_gold_update_reads_back(before, remaining, reset_at_ms, cap, after);
    line_of_a_log_tells_its_event(Seq::empty(), line, Seq::empty());
    events_come_line_by_line(Seq::empty(), line, Seq::empty());
    assert(line + seq!['\n'] + Seq::<char>::empty() == line + seq!['\n']);
    lines_end_at_line_feeds(Seq::empty(), Seq::empty());
    let event = LogEventView::VendorGoldUpdate { remaining, reset_at_ms, cap };
    assert(seq![event] + events_of_lines(Seq::empty()) =~= seq![event]);
}

/// Commas part arguments, and the white space around an argument is no part of it.
pub proof fn arguments_stand_between_commas(first: Seq<char>, rest: Seq<char>, n: int)
    requires
        free_of(first, ','),
        n >= 0,
    ensures
        argument(first, 0) == Some(trimmed(first)),
        n > 0 ==> argument(first, n) is None,
        argument(first + seq![','] + rest, 0) == Some(trimmed(first)),
        argument(first + seq![','] + rest, n + 1) == argument(rest, n),
{
    split_cuts_at_each_separator(first, ',', rest);
    let parts = seq![first] + split(rest, ',');
    if n < split(rest, ',').len() {
        assert(parts[n + 1] == split(rest, ',')[n]);
    }
}

/// An argument gives the number that it writes; one that is missing or writes none gives none.
pub proof fn arguments_give_the_numbers_they_write(arguments: Seq<char>, n: int)
    ensures
        argument(arguments, n) matches Some(text) ==> number_argument(arguments, n) == i64_value(
            text,
        ),
        argument(arguments, n) is None ==> number_argument(arguments, n) is None,
{
}

/// What follows the first quotation mark, up to the next one where there is one, is quoted, without
/// the white space around it. Nothing is quoted where there is no quotation mark, or only white
/// space after it.
pub proof fn quoted_argument_follows_the_first_quotation_mark(
    before: Seq<char>,
    quoted: Seq<char>,
    after: Seq<char>,
)
    requires
        free_of(before, '"'),
        free_of(quoted, '"'),
    ensures
        quoted_argument(before) is None,
        trimmed(quoted).len() > 0 ==> quoted_argument(before + seq!['"'] + quoted) == Some(
            trimmed(quoted),
        ) && quoted_argument(before + seq!['"'] + (quoted + seq!['"'] + after)) == Some(
            trimmed(quoted),
        ),
        trimmed(quoted).len() == 0 ==> quoted_argument(before + seq!['"'] + quoted) is None
            && quoted_argument(before + seq!['"'] + (quoted + seq!['"'] + after)) is None,
{
    split_cuts_at_each_separator(before, '"', quoted);
    split_cuts_at_each_separator(before, '"', quoted + seq!['"'] + after);
    split_cuts_at_each_separator(quoted, '"', after);
    assert((seq![before] + seq![quoted])[1] == quoted);
    assert((seq![before] + (seq![quoted] + split(after, '"')))[1] == quoted);
}

/// The arguments of a call are what stands between it and the first closing parenthesis after it,
/// wherever in the line the call stands. There are none without the call, and none without a closing
/// parenthesis after it.
pub proof fn arguments_follow_the_call(
    before: Seq<char>,
    call: Seq<char>,
    arguments: Seq<char>,
    after: Seq<char>,
)
    requires
        position(before + call, call) == Some(before.len() as int),
        free_of(arguments, ')'),
    ensures
        call_arguments(before + call + arguments + seq![')'] + after, call) == Some(arguments),
        call_arguments(before + call + arguments, call) is None,
        occurs_in(before + call + arguments + seq![')'] + after, call),
        occurs_in(before + call + arguments, call),
{
    lemma_call_arguments(before, call, arguments, after);
    let line = before + call + arguments + seq![')'] + after;
    lemma_position(line, call);
    let open = before + call + arguments;
    let k = before.len() as int;
    lemma_position(before + call, call);
    lemma_position(open, call);
    assert(open.subrange(k, k + call.len()) == call);
    assert(matches_at(open, call, k));
    let found = position(open, call)->0;
    if found < k {
        assert((before + call).subrange(found, found + call.len()) == open.subrange(
            found,
            found + call.len(),
        ));
        assert(matches_at(before + call, call, found));
    }
    let rest = open.skip(k + call.len());
    assert(rest == arguments);
    reveal_strlit(")");
    lemma_position(rest, ")"@);
    if let Some(closing) = position(rest, ")"@) {
        assert(rest.subrange(closing, closing + 1)[0] == ')');
        assert(rest[closing] == arguments[closing]);
    }
}

/// A line with the call of an interaction that starts tells of it exactly where the first argument
/// is a number, which is that of the character; the quoted argument is the key.
pub proof fn start_interaction_is_read_from_its_arguments(
    before: Seq<char>,
    arguments: Seq<char>,
    after: Seq<char>,
)
    requires
        position(before + "LocalPlayer: ProcessStartInteraction("@, "LocalPlayer: ProcessStartInteraction("@) == Some(before.len() as int),
        free_of(arguments, ')'),
    ensures
        ({
            let line = before + "LocalPlayer: ProcessStartInteraction("@ + arguments + seq![')'] + after;
            &&& log_event(line) == start_interaction(line)
            &&& number_argument(arguments, 0) is None ==> log_event(line) is None
            &&& number_argument(arguments, 0) matches Some(npc_id) ==> log_event(line) == Some(
                LogEventView::StartInteraction { npc_id, npc_key: quoted_argument(arguments) },
            )
            &&& log_event(before + "LocalPlayer: ProcessStartInteraction("@ + arguments) is None
            &&& start_interaction(before + "LocalPlayer: ProcessStartInteraction("@ + arguments) is None
        }),
{
    arguments_follow_the_call(before, "LocalPlayer: ProcessStartInteraction("@, arguments, after);
}

/// A line with the call of a vendor screen, and without that of an interaction that starts, tells of
/// it exactly where the first argument is a number, which is that of the character; the second
/// argument, where there is one, is the word for the favor.
pub proof fn vendor_screen_is_read_from_its_arguments(
    before: Seq<char>,
    arguments: Seq<char>,
    after: Seq<char>,
)
    requires
        position(before + "LocalPlayer: ProcessVendorScreen("@, "LocalPlayer: ProcessVendorScreen("@) == Some(before.len() as int),
        free_of(arguments, ')'),
    ensures
        ({
            let line = before + "LocalPlayer: ProcessVendorScreen("@ + arguments + seq![')'] + after;
            let open = before + "LocalPlayer: ProcessVendorScreen("@ + arguments;
            &&& number_argument(arguments, 0) is None ==> vendor_screen(line) is None
            &&& number_argument(arguments, 0) matches Some(npc_id) ==> vendor_screen(line) == Some(
                LogEventView::VendorScreen { npc_id, favor: argument(arguments, 1) },
            )
            &&& !occurs_in(line, "LocalPlayer: ProcessStartInteraction("@) ==> log_event(line) == vendor_screen(line)
            &&& vendor_screen(open) is None
            &&& !occurs_in(open, "LocalPlayer: ProcessStartInteraction("@) ==> log_event(open) is None
        }),
{
    arguments_follow_the_call(before, "LocalPlayer: ProcessVendorScreen("@, arguments, after);
}

/// A line with the call of a change of money, and without the two others, tells of it exactly where
/// the first three arguments are numbers, which are the money left, the time of the reset and the
/// most money.
pub proof fn gold_update_is_read_from_its_arguments(
    before: Seq<char>,
    arguments: Seq<char>,
    after: Seq<char>,
)
    requires
        position(before + "LocalPlayer: ProcessVendorUpdateAvailableGold("@, "LocalPlayer: ProcessVendorUpdateAvailableGold("@) == Some(before.len() as int),
        free_of(arguments, ')'),
    ensures
        ({
            let line = before + "LocalPlayer: ProcessVendorUpdateAvailableGold("@ + arguments + seq![')'] + after;
            let open = before + "LocalPlayer: ProcessVendorUpdateAvailableGold("@ + arguments;
            &&& number_argument(arguments, 0) is None || number_argument(arguments, 1) is None
                || number_argument(arguments, 2) is None ==> vendor_update_gold(line) is None
            &&& number_argument(arguments, 0) is Some && number_argument(arguments, 1) is Some
                && number_argument(arguments, 2) is Some ==> vendor_update_gold(line) == Some(
                LogEventView::VendorGoldUpdate {
                    remaining: number_argument(arguments, 0)->0,
                    reset_at_ms: number_argument(arguments, 1)->0,
                    cap: number_argument(arguments, 2)->0,
                },
            )
            &&& !occurs_in(line, "LocalPlayer: ProcessStartInteraction("@) && !occurs_in(line, "LocalPlayer: ProcessVendorScreen("@) ==> log_event(line)
                == vendor_update_gold(line)
            &&& vendor_update_gold(open) is None
            &&& !occurs_in(open, "LocalPlayer: ProcessStartInteraction("@) && !occurs_in(open, "LocalPlayer: ProcessVendorScreen("@) ==> log_event(open) is None
        }),
{
    arguments_follow_the_call(before, "LocalPlayer: ProcessVendorUpdateAvailableGold("@, arguments, after);
}

/// A line without a call does not tell what the call would, and a line without any of the three
/// tells nothing.
pub proof fn nothing_is_told_without_a_call(line: Seq<char>)
    ensures
        !occurs_in(line, "LocalPlayer: ProcessStartInteraction("@) ==> start_interaction(line) is None,
        !occurs_in(line, "LocalPlayer: ProcessVendorScreen("@) ==> vendor_screen(line) is None,
        !occurs_in(line, "LocalPlayer: ProcessVendorUpdateAvailableGold("@) ==> vendor_update_gold(line) is None,
        !occurs_in(line, "LocalPlayer: ProcessStartInteraction("@) && !occurs_in(line, "LocalPlayer: ProcessVendorScreen("@) && !occurs_in(line, "LocalPlayer: ProcessVendorUpdateAvailableGold("@)
            ==> log_event(line) is None,
        occurs_in(line, "LocalPlayer: ProcessStartInteraction("@) ==> log_event(line) == start_interaction(line),
        !occurs_in(line, "LocalPlayer: ProcessStartInteraction("@) && occurs_in(line, "LocalPlayer: ProcessVendorScreen("@) ==> log_event(line) == vendor_screen(
            line,
        ),
{
    lemma_position(line, "LocalPlayer: ProcessStartInteraction("@);
    lemma_position(line, "LocalPlayer: ProcessVendorScreen("@);
    lemma_position(line, "LocalPlayer: ProcessVendorUpdateAvailableGold("@);
}

/// The view of an event tells all that the event holds, and the views of a list of events are those
/// of its events, in their order.
pub proof fn view_tells_all_of_an_event(event: LogEvent, events: Seq<LogEvent>, i: int)
    ensures
        match event {
            LogEvent::StartInteraction { npc_id, npc_key } => event@
                == LogEventView::StartInteraction {
                npc_id,
                npc_key: match npc_key {
                    Some(key) => Some(key@),
                    None => None,
                },
            },
            LogEvent::VendorScreen { npc_id, favor } => event@ == LogEventView::VendorScreen {
                npc_id,
                favor: match favor {
                    Some(word) => Some(word@),
                    None => None,
                },
            },
            LogEvent::VendorGoldUpdate { remaining, reset_at_ms, cap } => event@
                == LogEventView::VendorGoldUpdate { remaining, reset_at_ms, cap },
        },
        event_view(Some(event)) == Some(event@),
        event_view(None) is None,
        event_views(events).len() == events.len(),
        0 <= i < events.len() ==> event_views(events)[i] == events[i]@,
{
}

} // verus!
