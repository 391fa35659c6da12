//! Instants, the time between them, and how the time left is shown.

use vstd::prelude::*;

use crate::number::decimal;
use crate::number::decimal_stands_for_its_number;
use crate::number::decimal_text;
use crate::number::digit_char;
use crate::number::digits_value;
use crate::number::is_digit;
use crate::number::two_digit_text;
use crate::number::two_digits;
use crate::number::two_digits_are_tens_and_ones;
use crate::state::VendorApp;

verus! {

/// The first second, counted from the Unix epoch, of the years that a date can have.
pub const MIN_SECONDS: i64 = -377705116800;

/// The last second, counted from the Unix epoch, of the years that a date can have.
pub const MAX_SECONDS: i64 = 253402300799;

/// The first nanosecond of `MIN_SECONDS`.
pub const MIN_NANOS: i128 = -377705116800000000000;

/// The last nanosecond of `MAX_SECONDS`.
pub const MAX_NANOS: i128 = 253402300799999999999;

/// The nanoseconds of a second.
pub const SECOND: i128 = 1000000000;

/// The nanoseconds of a minute.
pub const MINUTE: i128 = 60000000000;

/// Whether an instant, in nanoseconds from the Unix epoch, lies in the years that a date can
/// have: -9999 to 9999.
pub open spec fn is_instant(nanos: int) -> bool {
    MIN_NANOS <= nanos <= MAX_NANOS
}

/// Whether a number of nanoseconds is a length of time that a duration can have: one whose whole
/// seconds are a number of 64 bits.
pub open spec fn is_span(nanos: int) -> bool {
    (i64::MIN - 1) * SECOND < nanos < (i64::MAX + 1) * SECOND
}

/// An instant, in nanoseconds from the Unix epoch.
#[derive(Debug, Clone, Copy, PartialEq, Eq, Structural)]
pub struct Timestamp {
    pub unix_nanos: i128,
}

/// A length of time in nanoseconds, negative where it leads into the past.
#[derive(Debug, Clone, Copy, PartialEq, Eq, Structural)]
pub struct Span {
    pub nanos: i128,
}

impl View for Timestamp {
    type V = int;

    open spec fn view(&self) -> int {
        self.unix_nanos as int
    }
}

impl View for Span {
    type V = int;

    open spec fn view(&self) -> int {
        self.nanos as int
    }
}

/// The instant that an optional timestamp holds.
pub open spec fn optional_instant(t: Option<Timestamp>) -> Option<int> {
    match t {
        Some(t) => Some(t@),
        None => None,
    }
}

/// Whether an optional timestamp, where there is one, is an instant.
pub open spec fn optional_is_instant(t: Option<int>) -> bool {
    match t {
        Some(t) => is_instant(t),
        None => true,
    }
}

/// The length that an optional span holds.
pub open spec fn optional_length(d: Option<Span>) -> Option<int> {
    match d {
        Some(d) => Some(d@),
        None => None,
    }
}

/// The quotient of `a` and `b`, rounded towards zero.
pub open spec fn truncated_quotient(a: int, b: int) -> int {
    if a < 0 {
        -((-a) / b)
    } else {
        a / b
    }
}

/// The whole minutes of a length of time.
pub open spec fn minutes_in(span: int) -> int {
    truncated_quotient(span, MINUTE as int)
}

/// `n`, but at least zero.
pub open spec fn at_least_zero(n: int) -> int {
    if n < 0 {
        0
    } else {
        n
    }
}

/// The time left until the reset, which is zero once it has passed.
pub open spec fn time_left(reset_at: Option<int>, now: int) -> Option<int> {
    match reset_at {
        Some(t) => Some(at_least_zero(t - now)),
        None => None,
    }
}

/// The whole minutes left until the reset, which are zero once it has passed.
pub open spec fn minutes_left(reset_at: Option<int>, now: int) -> Option<i64> {
    match reset_at {
        Some(t) => Some(at_least_zero(minutes_in(t - now)) as i64),
        None => None,
    }
}

/// A number of minutes as days, hours and minutes; a negative number is shown as zero.
pub open spec fn countdown(total_minutes: int) -> Seq<char> {
    let m = at_least_zero(total_minutes);
    decimal((m / 1440) as nat) + "d "@ + two_digits(((m % 1440) / 60) as nat) + "h "@ + two_digits(
        (m % 60) as nat,
    ) + "m"@
}

/// The error of a number of seconds that no date can have.
#[verifier::external_type_specification]
#[verifier::external_body]
pub struct ExComponentRange(time::error::ComponentRange);

/// `time::OffsetDateTime::now_utc`: the instant at which it is called, in nanoseconds from the
/// Unix epoch. It is an instant that a date can have; which one is left open. A clock that is set
/// to a year that no date can have makes it panic.
#[verifier::external_body]
fn now_utc() -> (r: i128)
    ensures
        is_instant(r as int),
{
    time::OffsetDateTime::now_utc().unix_timestamp_nanos()
}

/// `time::OffsetDateTime::from_unix_timestamp`: the instant that lies the given number of
/// seconds after the Unix epoch, in nanoseconds, and an error exactly where no date can have it.
#[verifier::external_body]
fn from_unix_timestamp(seconds: i64) -> (r: Result<i128, time::error::ComponentRange>)
    ensures
        r is Ok <==> MIN_SECONDS <= seconds <= MAX_SECONDS,
        r matches Ok(nanos) ==> nanos == seconds * SECOND,
{
    match time::OffsetDateTime::from_unix_timestamp(seconds) {
        Ok(t) => Ok(t.unix_timestamp_nanos()),
        Err(e) => Err(e),
    }
}

/// The difference of two `time::OffsetDateTime`: the time from `earlier` to `later`, all in
/// nanoseconds.
#[verifier::external_body]
fn difference(later: i128, earlier: i128) -> (r: i128)
    requires
        is_instant(later as int),
        is_instant(earlier as int),
    ensures
        r == later - earlier,
{
    let later = time::OffsetDateTime::from_unix_timestamp_nanos(later).unwrap();
    let earlier = time::OffsetDateTime::from_unix_timestamp_nanos(earlier).unwrap();
    (later - earlier).whole_nanoseconds()
}

/// The sum of a `time::OffsetDateTime` and `time::Duration::minutes`: the instant that lies the
/// given number of minutes after `at`, in nanoseconds. It panics where no date can have it.
#[verifier::external_body]
fn sum_with_minutes(at: i128, minutes: i64) -> (r: i128)
    requires
        is_instant(at as int),
        is_instant(at + minutes * MINUTE),
    ensures
        r == at + minutes * MINUTE,
{
    let at = time::OffsetDateTime::from_unix_timestamp_nanos(at).unwrap();
    (at + time::Duration::minutes(minutes)).unix_timestamp_nanos()
}

/// `time::Duration::whole_minutes`: the minutes of a length in nanoseconds, rounded towards zero.
#[verifier::external_body]
fn whole_minutes(span: i128) -> (r: i64)
    requires
        is_span(span as int),
    ensures
        r == minutes_in(span as int),
{
    time::Duration::nanoseconds_i128(span).whole_minutes()
}

impl Timestamp {
    /// The instant that lies `unix_nanos` nanoseconds after the Unix epoch, where a date can
    /// have it.
    pub fn from_unix_nanos(unix_nanos: i128) -> (r: Option<Timestamp>)
        ensures
            optional_instant(r) == (if is_instant(unix_nanos as int) {
                Some(unix_nanos as int)
            } else {
                None
            }),
    {
        if MIN_NANOS <= unix_nanos && unix_nanos <= MAX_NANOS {
            Some(Timestamp { unix_nanos })
        } else {
            None
        }
    }

    /// The present instant.
    pub fn now() -> (r: Timestamp)
        ensures
            is_instant(r@),
    {
        Timestamp { unix_nanos: now_utc() }
    }

    /// The instant that lies `seconds` after the Unix epoch, where a date can have it.
    pub fn from_unix_seconds(seconds: i64) -> (r: Option<Timestamp>)
        ensures
            optional_instant(r) == (if MIN_SECONDS <= seconds <= MAX_SECONDS {
                Some(seconds * SECOND)
            } else {
                None
            }),
            optional_is_instant(optional_instant(r)),
    {
        match from_unix_timestamp(seconds) {
            Ok(unix_nanos) => Some(Timestamp { unix_nanos }),
            Err(_) => None,
        }
    }

    /// Whether a date can have the instant `minutes` after this one.
    pub fn can_add_minutes(self, minutes: i64) -> (r: bool)
        requires
            is_instant(self@),
        ensures
            r == is_instant(self@ + minutes * MINUTE),
    {
        let nanos: i128 = self.unix_nanos + minutes as i128 * MINUTE;
        MIN_NANOS <= nanos && nanos <= MAX_NANOS
    }

    /// The instant `minutes` after this one.
    pub fn plus_minutes(self, minutes: i64) -> (r: Timestamp)
        requires
            is_instant(self@),
            is_instant(self@ + minutes * MINUTE),
        ensures
            r@ == self@ + minutes * MINUTE,
    {
        Timestamp { unix_nanos: sum_with_minutes(self.unix_nanos, minutes) }
    }

    /// The time from `earlier` to this instant.
    pub fn since(self, earlier: Timestamp) -> (r: Span)
        requires
            is_instant(self@),
            is_instant(earlier@),
        ensures
            r@ == self@ - earlier@,
    {
        Span { nanos: difference(self.unix_nanos, earlier.unix_nanos) }
    }
}

impl VendorApp {
    /// The time left at `now` until the reset.
    pub fn remaining_clamped_at(reset_at: Option<Timestamp>, now: Timestamp) -> (r: Option<Span>)
        requires
            optional_is_instant(optional_instant(reset_at)),
            is_instant(now@),
        ensures
            optional_length(r) == time_left(optional_instant(reset_at), now@),
    {
        match reset_at {
            Some(t) => {
                let d = t.since(now);
                Some(
                    if d.nanos < 0 {
                        Span { nanos: 0 }
                    } else {
                        d
                    },
                )
            },
            None => None,
        }
    }

    /// The time left until the reset at an instant that `Timestamp::now` gives.
    pub fn remaining_clamped(reset_at: Option<Timestamp>) -> (r: Option<Span>)
        requires
            optional_is_instant(optional_instant(reset_at)),
        ensures
            exists|now: int| #[trigger]
                is_instant(now) && optional_length(r) == time_left(optional_instant(reset_at), now),
            exists|now: Timestamp| #[trigger]
                call_ensures(Timestamp::now, (), now) && optional_length(r) == time_left(
                    optional_instant(reset_at),
                    now@,
                ),
    {
        let now = Timestamp::now();
        assert(is_instant(now@) && call_ensures(Timestamp::now, (), now));
        VendorApp::remaining_clamped_at(reset_at, now)
    }

    /// The whole minutes left at `now` until the reset.
    pub fn remaining_minutes_clamped_at(reset_at: Option<Timestamp>, now: Timestamp) -> (r: Option<
        i64,
    >)
        requires
            optional_is_instant(optional_instant(reset_at)),
            is_instant(now@),
        ensures
            r == minutes_left(optional_instant(reset_at), now@),
    {
        match reset_at {
            Some(t) => {
                let minutes: i64 = whole_minutes(t.since(now).nanos);
                Some(
                    if minutes < 0 {
                        0
                    } else {
                        minutes
                    },
                )
            },
            None => None,
        }
    }

    /// The whole minutes left until the reset at an instant that `Timestamp::now` gives.
    pub fn remaining_minutes_clamped(reset_at: Option<Timestamp>) -> (r: Option<i64>)
        requires
            optional_is_instant(optional_instant(reset_at)),
        ensures
            exists|now: int| #[trigger]
                is_instant(now) && r == minutes_left(optional_instant(reset_at), now),
            exists|now: Timestamp| #[trigger]
                call_ensures(Timestamp::now, (), now) && r == minutes_left(
                    optional_instant(reset_at),
                    now@,
                ),
    {
        let now = Timestamp::now();
        assert(is_instant(now@) && call_ensures(Timestamp::now, (), now));
        VendorApp::remaining_minutes_clamped_at(reset_at, now)
    }

    /// A number of minutes as days, hours and minutes.
    pub fn fmt_d_h_m_from_minutes(total_minutes: i64) -> (r: String)
        ensures
            r@ == countdown(total_minutes as int),
    {
        let total: u64 = if total_minutes < 0 {
            0
        } else {
            total_minutes as u64
        };
        let mut r = decimal_text(total / 1440);
        r.append("d ");
        r.append(two_digit_text((total % 1440) / 60).as_str());
        r.append("h ");
        r.append(two_digit_text(total % 60).as_str());
        r.append("m");
        r
    }

    /// A length of time as days, hours and minutes.
    pub fn fmt_d_h_m(d: Span) -> (r: String)
        requires
            is_span(d@),
        ensures
            r@ == countdown(minutes_in(d@)),
    {
        VendorApp::fmt_d_h_m_from_minutes(whole_minutes(d.nanos))
    }
}

/// Once the reset has passed, the time left is zero, and it stays zero.
pub proof fn passed_reset_stays_at_zero(reset_at: int, now: int, later: int)
    requires
        reset_at <= now <= later,
    ensures
        time_left(Some(reset_at), now) == Some(0int),
        time_left(Some(reset_at), later) == Some(0int),
        minutes_left(Some(reset_at), now) == Some(0i64),
        minutes_left(Some(reset_at), later) == Some(0i64),
{
    assert((now - reset_at) / (MINUTE as int) >= 0) by (nonlinear_arith)
        requires
            now >= reset_at,
            MINUTE == 60000000000,
    ;
    assert((later - reset_at) / (MINUTE as int) >= 0) by (nonlinear_arith)
        requires
            later >= reset_at,
            MINUTE == 60000000000,
    ;
}

/// Time does not run backwards: the time left never grows.
pub proof fn time_left_never_grows(reset_at: int, now: int, later: int)
    requires
        is_instant(reset_at),
        is_instant(now),
        is_instant(later),
        now <= later,
    ensures
        time_left(Some(reset_at), later)->0 <= time_left(Some(reset_at), now)->0,
        minutes_left(Some(reset_at), later)->0 <= minutes_left(Some(reset_at), now)->0,
{
}

/// A timer that was just started for a number of minutes has just these minutes left.
pub proof fn started_timer_has_its_minutes_left(now: int, minutes: i64)
    requires
        is_instant(now),
        minutes >= 0,
        is_instant(now + minutes * MINUTE),
    ensures
        time_left(Some(now + minutes * MINUTE), now) == Some(minutes * MINUTE),
        minutes_left(Some(now + minutes * MINUTE), now) == Some(minutes),
{
}

/// Numbers of minutes that are not negative are shown differently where they differ.
pub proof fn shown_time_tells_the_minutes(a: int, b: int)
    requires
        0 <= a,
        0 <= b,
        countdown(a) == countdown(b),
    ensures
        a == b,
{
    reveal_strlit("d ");
    reveal_strlit("h ");
    reveal_strlit("m");
    let text = countdown(a);
    let x = decimal((a / 1440) as nat);
    let y = decimal((b / 1440) as nat);
    decimal_stands_for_its_number((a / 1440) as nat);
    decimal_stands_for_its_number((b / 1440) as nat);
    assert(text[x.len() as int] == 'd');
    assert(text[y.len() as int] == 'd');
    if x.len() < y.len() {
        assert(is_digit(y[x.len() as int]));
        assert(text[x.len() as int] == y[x.len() as int]);
    } else if y.len() < x.len() {
        assert(is_digit(x[y.len() as int]));
        assert(text[y.len() as int] == x[y.len() as int]);
    }
    let n = x.len() as int;
    assert(x =~= text.take(n));
    assert(y =~= text.take(n));
    lemma_two_digits(((a % 1440) / 60) as nat);
    lemma_two_digits(((b % 1440) / 60) as nat);
    lemma_two_digits((a % 60) as nat);
    lemma_two_digits((b % 60) as nat);
    assert(two_digits(((a % 1440) / 60) as nat) =~= text.subrange(n + 2, n + 4));
    assert(two_digits(((b % 1440) / 60) as nat) =~= text.subrange(n + 2, n + 4));
    assert(two_digits((a % 60) as nat) =~= text.subrange(n + 6, n + 8));
    assert(two_digits((b % 60) as nat) =~= text.subrange(n + 6, n + 8));
}

proof fn lemma_two_digits(n: nat)
    requires
        n < 100,
    ensures
        two_digits(n).len() == 2,
        digits_value(two_digits(n)) == n,
{
    decimal_stands_for_its_number(n);
    if n < 10 {
        assert(two_digits(n) =~= seq!['0', digit_char(n as int)]);
        assert(two_digits(n).drop_last() =~= seq!['0']);
        assert(seq!['0'].drop_last() =~= Seq::empty());
        reveal_with_fuel(digits_value, 3);
    } else {
        assert(decimal(n / 10) =~= seq![digit_char((n / 10) as int)]);
    }
}

/// Negative numbers of minutes are shown as zero.
pub proof fn negative_minutes_are_shown_as_zero(total_minutes: int)
    requires
        total_minutes <= 0,
    ensures
        countdown(total_minutes) == countdown(0),
{
}

/// Dates have the instants from the start of the year -9999 to the end of the year 9999, counted
/// in nanoseconds from the Unix epoch; durations have all lengths whose whole seconds are numbers
/// of 64 bits.
pub proof fn instants_are_those_of_the_years_of_dates(nanos: int)
    ensures
        is_instant(nanos) <==> -377705116800000000000 <= nanos < 253402300800 * 1000000000,
        is_span(nanos) <==> -9223372036854775809 * 1000000000 < nanos < 9223372036854775808
            * 1000000000,
        SECOND == 1000000000,
        MINUTE == 60 * SECOND,
        MIN_SECONDS * SECOND == MIN_NANOS,
        (MAX_SECONDS + 1) * SECOND == MAX_NANOS + 1,
{
}

/// The time left is what lies between now and a reset that is still to come, and zero once the
/// reset has come; there is none without a reset.
pub proof fn time_left_lies_between_now_and_the_reset(reset_at: int, now: int)
    ensures
        time_left(None, now) is None,
        now <= reset_at ==> time_left(Some(reset_at), now) == Some(reset_at - now),
        reset_at <= now ==> time_left(Some(reset_at), now) == Some(0int),
{
}

/// The minutes left are the whole minutes that lie between now and a reset that is still to come,
/// and zero once the reset has come; there are none without a reset.
pub proof fn minutes_left_are_whole_minutes(reset_at: int, now: int)
    requires
        is_instant(reset_at),
        is_instant(now),
    ensures
        minutes_left(None, now) is None,
        minutes_left(Some(reset_at), now) is Some,
        now <= reset_at ==> 60000000000 * minutes_left(Some(reset_at), now)->0 <= reset_at - now
            < 60000000000 * (minutes_left(Some(reset_at), now)->0 + 1),
        reset_at <= now ==> minutes_left(Some(reset_at), now) == Some(0i64),
{
    if reset_at <= now {
        passed_reset_stays_at_zero(reset_at, now, now);
    }
}

/// A length of time has as many whole minutes as fit into it, and the same length into the past
/// has the opposite of that.
pub proof fn whole_minutes_fit_into_a_length(length: int)
    requires
        0 <= length,
    ensures
        60000000000 * minutes_in(length) <= length < 60000000000 * (minutes_in(length) + 1),
        minutes_in(-length) == -minutes_in(length),
{
}

/// Days, hours and minutes are shown as these three numbers, the hours and the minutes with two
/// digits.
pub proof fn days_hours_and_minutes_are_shown(days: nat, hours: nat, minutes: nat)
    requires
        hours < 24,
        minutes < 60,
    ensures
        countdown((days * 1440 + hours * 60 + minutes) as int) == decimal(days) + seq![
            'd',
            ' ',
            (48 + hours / 10) as char,
            (48 + hours % 10) as char,
            'h',
            ' ',
            (48 + minutes / 10) as char,
            (48 + minutes % 10) as char,
            'm',
        ],
{
    reveal_strlit("d ");
    reveal_strlit("h ");
    reveal_strlit("m");
    let total = days * 1440 + hours * 60 + minutes;
    assert(total / 1440 == days);
    assert((total % 1440) / 60 == hours);
    assert(total % 60 == minutes);
    two_digits_are_tens_and_ones(hours);
    two_digits_are_tens_and_ones(minutes);
    assert(countdown(total as int) =~= decimal(days) + seq![
        'd',
        ' ',
        (48 + hours / 10) as char,
        (48 + hours % 10) as char,
        'h',
        ' ',
        (48 + minutes / 10) as char,
        (48 + minutes % 10) as char,
        'm',
    ]);
}

/// The views of instants and lengths of time are their nanoseconds.
pub proof fn views_of_times_are_nanoseconds(t: Timestamp, d: Span)
    ensures
        t@ == t.unix_nanos,
        d@ == d.nanos,
        optional_instant(Some(t)) == Some(t.unix_nanos as int),
        optional_instant(None) is None,
        optional_length(Some(d)) == Some(d.nanos as int),
        optional_length(None) is None,
        optional_is_instant(Some(t@)) <==> is_instant(t.unix_nanos as int),
        optional_is_instant(None),
{
}

} // verus!
