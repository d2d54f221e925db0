//! Points in time and how a listing shows them.

use crate::args::TimeStyle;
use crate::entry::Metadata;
use crate::style::{span, Cell, SpanView, Tint};
use crate::text::{pad_left, pad_left_string, signed_decimal, signed_decimal_string};
use chrono::{DateTime, FixedOffset};
use vstd::arithmetic::div_mod::{
    lemma_div_is_ordered, lemma_div_pos_is_pos, lemma_fundamental_div_mod_converse,
};
use vstd::prelude::*;

verus! {

/// The earliest second, counted from the Unix epoch, that a timestamp holds:
/// the first second of the year -262143.
pub const MIN_SECONDS: i64 = -8_334_601_228_800;

/// The latest second, counted from the Unix epoch, that a timestamp holds:
/// the last second of the year 262142.
pub const MAX_SECONDS: i64 = 8_210_266_876_799;

/// The values that make a timestamp: whole seconds within the calendar's
/// range, a fraction below one second, an offset below one day.
pub open spec fn representable(secs: int, nanos: int, offset: int) -> bool {
    &&& MIN_SECONDS <= secs <= MAX_SECONDS
    &&& 0 <= nanos < 1_000_000_000
    &&& -86_400 < offset < 86_400
}

/// A point in time, with the offset from UTC under which it is shown.
#[derive(Clone, Copy, Debug, PartialEq, Eq)]
pub struct Timestamp {
    secs: i64,
    nanos: u32,
    offset: i32,
}

/// The mathematical value of a [`Timestamp`].
pub ghost struct Instant {
    /// Whole seconds since 1970-01-01 00:00:00 UTC.
    pub secs: int,
    /// Nanoseconds since the last whole second.
    pub nanos: int,
    /// Seconds that local time is ahead of UTC.
    pub offset: int,
}

impl Instant {
    /// The values are those of a timestamp.
    pub open spec fn valid(self) -> bool {
        representable(self.secs, self.nanos, self.offset)
    }

    /// This instant is earlier than `other`.
    pub open spec fn before(self, other: Instant) -> bool {
        self.secs < other.secs || (self.secs == other.secs && self.nanos < other.nanos)
    }
}

impl View for Timestamp {
    type V = Instant;

    closed spec fn view(&self) -> Instant {
        Instant { secs: self.secs as int, nanos: self.nanos as int, offset: self.offset as int }
    }
}

impl Timestamp {
    #[verifier::type_invariant]
    spec fn inv(self) -> bool {
        representable(self.secs as int, self.nanos as int, self.offset as int)
    }

    /// The timestamp of the given values, or `None` where they are out of
    /// range.
    pub fn new(secs: i64, nanos: u32, offset: i32) -> (made: Option<Timestamp>)
        ensures
            representable(secs as int, nanos as int, offset as int) ==> made is Some && made->0@
                == (Instant { secs: secs as int, nanos: nanos as int, offset: offset as int }),
            !representable(secs as int, nanos as int, offset as int) ==> made is None,
    {
        if MIN_SECONDS <= secs && secs <= MAX_SECONDS && nanos < 1_000_000_000 && -86_400 < offset
            && offset < 86_400 {
            Some(Timestamp { secs, nanos, offset })
        } else {
            None
        }
    }

    /// Whole seconds since the Unix epoch.
    pub fn secs(&self) -> (secs: i64)
        ensures
            secs == self@.secs,
            MIN_SECONDS <= secs <= MAX_SECONDS,
    {
        proof {
            use_type_invariant(self);
        }
        self.secs
    }

    /// Nanoseconds since the last whole second.
    pub fn nanos(&self) -> (nanos: u32)
        ensures
            nanos == self@.nanos,
            nanos < 1_000_000_000,
    {
        proof {
            use_type_invariant(self);
        }
        self.nanos
    }

    /// Seconds that local time is ahead of UTC.
    pub fn offset(&self) -> (offset: i32)
        ensures
            offset == self@.offset,
            -86_400 < offset < 86_400,
    {
        proof {
            use_type_invariant(self);
        }
        self.offset
    }
}

/// `n` divided by `unit`, rounded toward zero.
pub open spec fn whole(n: int, unit: int) -> int {
    if n >= 0 {
        n / unit
    } else {
        -((-n) / unit)
    }
}

/// The whole seconds that have passed from `then` to `now`; negative where
/// `then` is the later one.
pub open spec fn elapsed_seconds(now: Instant, then: Instant) -> int {
    whole((now.secs - then.secs) * 1_000_000_000 + (now.nanos - then.nanos), 1_000_000_000)
}

/// The whole days in `age` seconds.
pub open spec fn days_of(age: int) -> int {
    whole(age, 86_400)
}

/// The unit in which an age is told.
#[derive(Clone, Copy, Debug, PartialEq, Eq, Structural)]
pub enum AgeUnit {
    Second,
    Minute,
    Hour,
    Day,
    Month,
    Year,
}

impl AgeUnit {
    /// The units in the order of their size.
    pub open spec fn rank(self) -> nat {
        match self {
            AgeUnit::Second => 0,
            AgeUnit::Minute => 1,
            AgeUnit::Hour => 2,
            AgeUnit::Day => 3,
            AgeUnit::Month => 4,
            AgeUnit::Year => 5,
        }
    }

    /// The unit's name in the singular.
    pub open spec fn name(self) -> Seq<char> {
        match self {
            AgeUnit::Second => "second"@,
            AgeUnit::Minute => "minute"@,
            AgeUnit::Hour => "hour"@,
            AgeUnit::Day => "day"@,
            AgeUnit::Month => "month"@,
            AgeUnit::Year => "year"@,
        }
    }
}

/// The unit in which an age of `age` seconds is told: seconds below a
/// minute, minutes below an hour, hours below a day, days below 30 days,
/// months below 365 days, years from there on.
pub open spec fn age_unit(age: int) -> AgeUnit {
    if whole(age, 60) < 1 {
        AgeUnit::Second
    } else if whole(age, 3_600) < 1 {
        AgeUnit::Minute
    } else if days_of(age) < 1 {
        AgeUnit::Hour
    } else if days_of(age) < 30 {
        AgeUnit::Day
    } else if days_of(age) < 365 {
        AgeUnit::Month
    } else {
        AgeUnit::Year
    }
}

/// How many of its unit an age of `age` seconds is: a month is 30 days, a
/// year 365 days.
pub open spec fn age_count(age: int) -> int {
    match age_unit(age) {
        AgeUnit::Second => age,
        AgeUnit::Minute => whole(age, 60),
        AgeUnit::Hour => whole(age, 3_600),
        AgeUnit::Day => days_of(age),
        AgeUnit::Month => days_of(age) / 30,
        AgeUnit::Year => days_of(age) / 365,
    }
}

/// `count` of `unit` in words: the number in a field of two characters, the
/// unit in the plural unless the number is 1, and `ago`.
pub open spec fn age_cell(count: int, unit: AgeUnit) -> Seq<SpanView> {
    seq![
        span(pad_left(signed_decimal(count), 2), Some(Tint::BrightMagenta)),
        span(seq![' '], None),
        span(
            unit.name() + if count == 1 {
                Seq::<char>::empty()
            } else {
                seq!['s']
            } + " ago"@,
            Some(Tint::Magenta),
        ),
    ]
}

/// The age of `then` at `now`, in words.
pub open spec fn relative_cell(then: Instant, now: Instant) -> Seq<SpanView> {
    let age = elapsed_seconds(now, then);
    age_cell(age_count(age), age_unit(age))
}

/// The pattern of day, month and time of day.
pub open spec fn day_time_pattern() -> Seq<char> {
    "%e %b %H:%M"@
}

/// The pattern of day, month and year.
pub open spec fn day_year_pattern() -> Seq<char> {
    "%e %b  %Y"@
}

/// The pattern of an ISO date.
pub open spec fn iso_date_pattern() -> Seq<char> {
    "%Y-%m-%d"@
}

/// The pattern of hours and minutes.
pub open spec fn iso_time_pattern() -> Seq<char> {
    "%H:%M"@
}

/// The patterns that the time column uses.
pub open spec fn known_pattern(pattern: Seq<char>) -> bool {
    pattern == day_time_pattern() || pattern == day_year_pattern() || pattern == iso_date_pattern()
        || pattern == iso_time_pattern()
}

/// What `chrono` writes for the instant `at`, shown under its offset from
/// UTC, when it is formatted by the `strftime` pattern `pattern`.
pub uninterp spec fn clock_text(at: Instant, pattern: Seq<char>) -> Seq<char>;

/// An entry counts as old where its age in whole days, divided by 365, is
/// more than 1: from 730 days on.
pub open spec fn is_old(then: Instant, now: Instant) -> bool {
    days_of(elapsed_seconds(now, then)) / 365 > 1
}

/// The default time column: day, month and time of day, or day, month and
/// year for an old entry.
pub open spec fn default_cell(then: Instant, now: Instant) -> Seq<SpanView> {
    let pattern = if is_old(then, now) {
        day_year_pattern()
    } else {
        day_time_pattern()
    };
    seq![span(clock_text(then, pattern), Some(Tint::Magenta))]
}

/// The ISO time column: the date, a space, the time of day.
pub open spec fn iso_cell(then: Instant) -> Seq<SpanView> {
    seq![
        span(clock_text(then, iso_date_pattern()), Some(Tint::Magenta)),
        span(seq![' '], None),
        span(clock_text(then, iso_time_pattern()), Some(Tint::BrightMagenta)),
    ]
}

/// The time column of an entry last modified at `then`.
pub open spec fn time_cell(then: Instant, style: TimeStyle, now: Instant) -> Seq<SpanView> {
    match style {
        TimeStyle::Default => default_cell(then, now),
        TimeStyle::Iso => iso_cell(then),
        TimeStyle::Relative => relative_cell(then, now),
    }
}

/// Builds the `chrono` date and time of `at` in the fixed time zone of its
/// offset (`DateTime::from_timestamp`, `FixedOffset::east_opt`,
/// `DateTime::with_timezone`) and formats it with `DateTime::format`. The
/// text depends on the instant, the offset and the pattern alone. Every
/// timestamp is within the range of `chrono`'s calendar, and each of the
/// patterns that `known_pattern` admits is well formed, so that the call
/// does not fail.
#[verifier::external_body]
fn format_clock(at: &Timestamp, pattern: &str) -> (text: String)
    requires
        known_pattern(pattern@),
    ensures
        text@ == clock_text(at@, pattern@),
{
    let zone = FixedOffset::east_opt(at.offset).unwrap();
    let utc = DateTime::from_timestamp(at.secs, at.nanos).unwrap();
    utc.with_timezone(&zone).format(pattern).to_string()
}

/// The whole seconds that have passed from `then` to `now`.
pub fn elapsed(now: &Timestamp, then: &Timestamp) -> (age: i64)
    ensures
        age == elapsed_seconds(now@, then@),
{
    proof {
        use_type_invariant(now);
        use_type_invariant(then);
    }
    let secs: i64 = now.secs - then.secs;
    let ghost total: int = secs * 1_000_000_000 + (now.nanos - then.nanos);
    if secs > 0 && now.nanos < then.nanos {
        proof {
            lemma_fundamental_div_mod_converse(
                total,
                1_000_000_000,
                secs - 1,
                1_000_000_000 + (now.nanos - then.nanos),
            );
        }
        secs - 1
    } else if secs < 0 && now.nanos > then.nanos {
        proof {
            lemma_fundamental_div_mod_converse(
                -total,
                1_000_000_000,
                -secs - 1,
                1_000_000_000 - (now.nanos - then.nanos),
            );
        }
        secs + 1
    } else if secs >= 0 {
        proof {
            if secs == 0 && now.nanos < then.nanos {
                lemma_fundamental_div_mod_converse(
                    -total,
                    1_000_000_000,
                    0,
                    then.nanos - now.nanos,
                );
            } else {
                lemma_fundamental_div_mod_converse(
                    total,
                    1_000_000_000,
                    secs as int,
                    now.nanos - then.nanos,
                );
            }
        }
        secs
    } else {
        proof {
            lemma_fundamental_div_mod_converse(
                -total,
                1_000_000_000,
                -secs,
                then.nanos - now.nanos,
            );
        }
        secs
    }
}

/// The name of `unit`, in the plural unless `count` is 1, and `ago`.
fn unit_words(count: i64, unit: AgeUnit) -> (words: String)
    ensures
        words@ == unit.name() + if count == 1 {
            Seq::<char>::empty()
        } else {
            seq!['s']
        } + " ago"@,
{
    let mut words = String::from_str(
        match unit {
            AgeUnit::Second => "second",
            AgeUnit::Minute => "minute",
            AgeUnit::Hour => "hour",
            AgeUnit::Day => "day",
            AgeUnit::Month => "month",
            AgeUnit::Year => "year",
        },
    );
    if count != 1 {
        proof {
            reveal_strlit("s");
        }
        words.append("s");
        assert(words@ =~= unit.name() + seq!['s']);
    } else {
        assert(words@ =~= unit.name() + Seq::<char>::empty());
    }
    words.append(" ago");
    words
}

/// `count` of `unit` as a cell.
fn pluralize(count: i64, unit: AgeUnit) -> (cell: Cell)
    ensures
        cell@ == age_cell(count as int, unit),
{
    let number = signed_decimal_string(count);
    let mut cell = Cell::of(pad_left_string(number.as_str(), 2).as_str(), Some(Tint::BrightMagenta));
    proof {
        reveal_strlit(" ");
    }
    cell.push(" ", None);
    cell.push(unit_words(count, unit).as_str(), Some(Tint::Magenta));
    assert(cell@[1].text =~= seq![' ']);
    assert(cell@ =~= age_cell(count as int, unit));
    cell
}

/// The age of `date_time` at `now`, in words.
pub fn date_relative(date_time: &Timestamp, now: &Timestamp) -> (cell: Cell)
    ensures
        cell@ == relative_cell(date_time@, now@),
{
    let age = elapsed(now, date_time);
    if age < 60 {
        pluralize(age, AgeUnit::Second)
    } else if age < 3_600 {
        pluralize(age / 60, AgeUnit::Minute)
    } else if age < 86_400 {
        pluralize(age / 3_600, AgeUnit::Hour)
    } else {
        let days = age / 86_400;
        if days < 30 {
            pluralize(days, AgeUnit::Day)
        } else if days < 365 {
            pluralize(days / 30, AgeUnit::Month)
        } else {
            pluralize(days / 365, AgeUnit::Year)
        }
    }
}

/// The default time column of an entry last modified at `date_time`.
pub fn date_default(date_time: &Timestamp, now: &Timestamp) -> (cell: Cell)
    ensures
        cell@ == default_cell(date_time@, now@),
{
    let age = elapsed(now, date_time);
    let text = if age >= 730 * 86_400 {
        format_clock(date_time, "%e %b  %Y")
    } else {
        format_clock(date_time, "%e %b %H:%M")
    };
    Cell::of(text.as_str(), Some(Tint::Magenta))
}

/// The ISO time column of an entry last modified at `date_time`.
pub fn date_iso(date_time: &Timestamp) -> (cell: Cell)
    ensures
        cell@ == iso_cell(date_time@),
{
    let mut cell = Cell::of(format_clock(date_time, "%Y-%m-%d").as_str(), Some(Tint::Magenta));
    proof {
        reveal_strlit(" ");
    }
    cell.push(" ", None);
    cell.push(format_clock(date_time, "%H:%M").as_str(), Some(Tint::BrightMagenta));
    assert(cell@[1].text =~= seq![' ']);
    assert(cell@ =~= iso_cell(date_time@));
    cell
}

/// The time column of an entry with the metadata `md`, in the style
/// `time_style`.
pub fn modified_date(md: &Metadata, time_style: TimeStyle, now: &Timestamp) -> (cell: Cell)
    ensures
        cell@ == time_cell(md.modified@, time_style, now@),
{
    match time_style {
        TimeStyle::Default => date_default(&md.modified, now),
        TimeStyle::Iso => date_iso(&md.modified),
        TimeStyle::Relative => date_relative(&md.modified, now),
    }
}

/// Division that rounds toward zero keeps the order of what it divides.
pub proof fn lemma_whole_monotonic(smaller: int, larger: int, unit: int)
    requires
        smaller <= larger,
        unit > 0,
    ensures
        whole(smaller, unit) <= whole(larger, unit),
{
    if smaller >= 0 {
        lemma_div_is_ordered(smaller, larger, unit);
    } else if larger < 0 {
        lemma_div_is_ordered(-larger, -smaller, unit);
    } else {
        lemma_div_pos_is_pos(-smaller, unit);
        lemma_div_pos_is_pos(larger, unit);
    }
}

/// An older entry is never told in a smaller unit than a younger one.
pub proof fn lemma_age_unit_monotonic(younger: int, older: int)
    requires
        younger <= older,
    ensures
        age_unit(younger).rank() <= age_unit(older).rank(),
{
    lemma_whole_monotonic(younger, older, 60);
    lemma_whole_monotonic(younger, older, 3_600);
    lemma_whole_monotonic(younger, older, 86_400);
}

/// The earlier of two instants has the greater age.
pub proof fn lemma_elapsed_monotonic(earlier: Instant, later: Instant, now: Instant)
    requires
        earlier.valid(),
        later.valid(),
        earlier.before(later),
    ensures
        elapsed_seconds(now, later) <= elapsed_seconds(now, earlier),
{
    lemma_whole_monotonic(
        (now.secs - later.secs) * 1_000_000_000 + (now.nanos - later.nanos),
        (now.secs - earlier.secs) * 1_000_000_000 + (now.nanos - earlier.nanos),
        1_000_000_000,
    );
}

/// Telling ages in words is monotonic: of two instants neither of which
/// lies after `now`, the earlier is told in a unit at least as large as the
/// unit of the later.
pub proof fn lemma_relative_monotonic(earlier: Instant, later: Instant, now: Instant)
    requires
        earlier.valid(),
        later.valid(),
        now.valid(),
        earlier.before(later),
        !now.before(later),
    ensures
        age_unit(elapsed_seconds(now, later)).rank() <= age_unit(
            elapsed_seconds(now, earlier),
        ).rank(),
        0 <= elapsed_seconds(now, later) <= elapsed_seconds(now, earlier),
{
    lemma_elapsed_monotonic(earlier, later, now);
    lemma_age_unit_monotonic(elapsed_seconds(now, later), elapsed_seconds(now, earlier));
    lemma_div_pos_is_pos(
        (now.secs - later.secs) * 1_000_000_000 + (now.nanos - later.nanos),
        1_000_000_000,
    );
}

} // verus!
