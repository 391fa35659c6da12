//! Following the player log as it grows.

use vstd::prelude::*;
use vstd::utf8::decode_utf8;
use vstd::utf8::decode_utf8_split;
use vstd::utf8::is_char_boundary_iff_not_is_continuation_byte;
use vstd::utf8::is_continuation_byte;
use vstd::utf8::leading_bits_width_1;
use vstd::utf8::pop_first_scalar;
use vstd::utf8::valid_utf8;
use vstd::utf8::valid_utf8_concat;
use vstd::utf8::valid_utf8_split;

use crate::log_laws::pieces_give_the_events_of_the_whole;
use crate::log_line::event_views;
use crate::log_line::events_of_lines;
use crate::log_line::parse_log_text;
use crate::log_line::LogEvent;
use crate::state::VendorApp;
use crate::text::lines;
use crate::text::trim;
use crate::text::trimmed;

verus! {

/// What `String::from_utf8_lossy` gives for bytes.
pub uninterp spec fn utf8_lossy(bytes: Seq<u8>) -> Seq<char>;

/// `String::from_utf8_lossy`: the text that bytes encode, which depends on nothing but the
/// bytes. Bytes that are valid UTF-8 give the text that they encode; what stands in the place of
/// others is left open.
#[verifier::external_body]
fn from_utf8_lossy(bytes: &[u8]) -> (r: String)
    ensures
        r@ == utf8_lossy(bytes@),
        valid_utf8(bytes@) ==> r@ == decode_utf8(bytes@),
{
    String::from_utf8_lossy(bytes).into_owned()
}

/// The events of a piece of the player log, in their order.
pub fn parse_log_bytes(bytes: &[u8]) -> (r: Vec<LogEvent>)
    ensures
        event_views(r@) == events_of_lines(lines(utf8_lossy(bytes@))),
        valid_utf8(bytes@) ==> event_views(r@) == events_of_lines(
            lines(decode_utf8(bytes@)),
        ),
{
    let text = from_utf8_lossy(bytes);
    parse_log_text(text.as_str())
}

/// How far the player log has been read.
#[derive(Debug)]
pub struct LogTail {
    /// The number of bytes that need not be read again.
    pub offset: u64,
}

/// From where the log is read when it has `len` bytes: from the start where it has become
/// shorter than what was read of it.
pub open spec fn read_from(offset: u64, len: u64) -> u64 {
    if len < offset {
        0
    } else {
        offset
    }
}

impl LogTail {
    /// Follows a log that has `len` bytes, or whose length is not known: only what is written
    /// later is read.
    pub fn start(len: Option<u64>) -> (r: LogTail)
        ensures
            r.offset == (match len {
                Some(len) => len,
                None => 0,
            }),
    {
        match len {
            Some(len) => LogTail { offset: len },
            None => LogTail { offset: 0 },
        }
    }

    /// Whether there is something to read in a log that has `len` bytes, and from where.
    pub fn poll(&mut self, len: u64) -> (r: Option<u64>)
        ensures
            final(self).offset == read_from(old(self).offset, len),
            r == (if len == read_from(old(self).offset, len) {
                None
            } else {
                Some(read_from(old(self).offset, len))
            }),
    {
        if len < self.offset {
            self.offset = 0;
        }
        if len == self.offset {
            None
        } else {
            Some(self.offset)
        }
    }

    /// The events of what was read of a log that had `len` bytes, which is then not read again.
    pub fn finish(&mut self, len: u64, bytes: &[u8]) -> (r: Vec<LogEvent>)
        ensures
            final(self).offset == len,
            event_views(r@) == events_of_lines(lines(utf8_lossy(bytes@))),
            valid_utf8(bytes@) ==> event_views(r@) == events_of_lines(
                lines(decode_utf8(bytes@)),
            ),
    {
        self.offset = len;
        parse_log_bytes(bytes)
    }
}

/// What is to be done about following the player log.
#[derive(Debug, PartialEq, Eq)]
pub enum WatcherAction {
    /// To stop following it.
    Stop,
    /// To leave everything as it is.
    Leave,
    /// To start following the file at this path.
    Start(String),
}

/// Whether `action` is what is to be done, given whether the log is to be followed, whether it
/// already is, the path of it as it is typed, and whether there is such a file.
pub open spec fn is_watcher_action(
    action: WatcherAction,
    wanted: bool,
    running: bool,
    path: Seq<char>,
    exists: bool,
) -> bool {
    if !wanted {
        action is Stop
    } else if running || trimmed(path).len() == 0 || !exists {
        action is Leave
    } else {
        action matches WatcherAction::Start(p) && p@ == trimmed(path)
    }
}

impl VendorApp {
    /// What is to be done about following the player log.
    pub fn ensure_watcher(&self, running: bool, exists: bool) -> (r: WatcherAction)
        ensures
            is_watcher_action(
                r,
                self@.persisted.watch_player_log,
                running,
                self@.persisted.player_log_path,
                exists,
            ),
    {
        if !self.persisted.watch_player_log {
            return WatcherAction::Stop;
        }
        if running {
            return WatcherAction::Leave;
        }
        let path = trim(self.persisted.player_log_path.as_str());
        if path.is_empty() || !exists {
            return WatcherAction::Leave;
        }
        WatcherAction::Start(path.to_owned())
    }

    /// Whether the player log cannot be found.
    pub fn player_log_missing(&self, exists: bool) -> (r: bool)
        ensures
            r == (trimmed(self@.persisted.player_log_path).len() == 0 || !exists),
    {
        trim(self.persisted.player_log_path.as_str()).is_empty() || !exists
    }
}

/// A log that only grows is read without gaps and without reading anything twice: what one
/// reading leaves, the next one starts from, and a log that has not grown is not read.
pub proof fn growing_log_is_read_once(offset: u64, len: u64, later: u64)
    requires
        offset <= len <= later,
    ensures
        read_from(offset, len) == offset,
        read_from(len, later) == len,
        read_from(len, len) == len,
{
}

/// A log that was replaced by a shorter one is read from its start.
pub proof fn shorter_log_is_read_from_its_start(offset: u64, len: u64)
    requires
        len < offset,
    ensures
        read_from(offset, len) == 0,
{
}

/// A reading that fails is tried again from the same place.
pub proof fn failed_reading_is_tried_again(offset: u64, len: u64, later: u64)
    requires
        len <= later,
    ensures
        read_from(read_from(offset, len), later) == read_from(offset, len),
{
}

/// The line feed, in bytes.
pub const LINE_FEED: u8 = 10;

proof fn lemma_decode_concatenation(a: Seq<u8>, b: Seq<u8>)
    requires
        valid_utf8(a),
        valid_utf8(b),
    ensures
        valid_utf8(a + b),
        decode_utf8(a + b) == decode_utf8(a) + decode_utf8(b),
    decreases a.len(),
{
    valid_utf8_concat(a, b);
    if a.len() == 0 {
        assert(a + b == b);
        assert(decode_utf8(a) + decode_utf8(b) == decode_utf8(b));
    } else {
        let rest = pop_first_scalar(a);
        assert(pop_first_scalar(a + b) == rest + b);
        lemma_decode_concatenation(rest, b);
        assert(decode_utf8(a + b) == decode_utf8(a) + decode_utf8(b));
    }
}

proof fn lemma_decode_line_feed(bytes: Seq<u8>)
    requires
        valid_utf8(bytes),
        bytes.len() > 0,
        bytes.last() == LINE_FEED,
    ensures
        exists|text: Seq<char>| decode_utf8(bytes) == #[trigger] (text + seq!['\n']),
{
    let k = bytes.len() - 1;
    let feed = bytes.subrange(k, bytes.len() as int);
    assert(!is_continuation_byte(bytes[k])) by {
        assert(bytes[k] == 10);
    }
    is_char_boundary_iff_not_is_continuation_byte(bytes, k);
    decode_utf8_split(bytes, k);
    valid_utf8_split(bytes, k);
    assert(feed == seq![LINE_FEED]);
    assert(pop_first_scalar(feed).len() == 0);
    assert(decode_utf8(pop_first_scalar(feed)).len() == 0);
    assert(leading_bits_width_1(10u8) == 10u32) by (bit_vector);
    assert(decode_utf8(feed) == seq!['\n']);
    assert(decode_utf8(bytes) == decode_utf8(bytes.subrange(0, k)) + seq!['\n']);
}

/// A log that is read in two pieces, of which the first ends with a line, tells the same events
/// in the same order as one that is read at once.
pub proof fn log_in_pieces_tells_the_same(first: Seq<u8>, second: Seq<u8>)
    requires
        valid_utf8(first),
        valid_utf8(second),
        first.len() > 0,
        first.last() == LINE_FEED,
    ensures
        valid_utf8(first + second),
        events_of_lines(lines(decode_utf8(first + second))) == events_of_lines(
            lines(decode_utf8(first)),
        ) + events_of_lines(lines(decode_utf8(second))),
{
    lemma_decode_concatenation(first, second);
    lemma_decode_line_feed(first);
    let text = choose|text: Seq<char>| decode_utf8(first) == #[trigger] (text + seq!['\n']);
    pieces_give_the_events_of_the_whole(text, decode_utf8(second));
}

/// The log is followed only where that is wanted. It is then left alone where it is followed
/// already, or where no path is typed or no file is there, and otherwise followed from the typed
/// path without the white space around it.
pub proof fn log_is_followed_where_it_is_wanted(
    action: WatcherAction,
    running: bool,
    path: Seq<char>,
    found: bool,
)
    ensures
        is_watcher_action(action, false, running, path, found) <==> action is Stop,
        running || !found || trimmed(path).len() == 0 ==> (is_watcher_action(
            action,
            true,
            running,
            path,
            found,
        ) <==> action is Leave),
        !running && found && trimmed(path).len() > 0 ==> (is_watcher_action(
            action,
            true,
            running,
            path,
            found,
        ) <==> (action matches WatcherAction::Start(p) && p@ == trimmed(path))),
{
}

} // verus!
