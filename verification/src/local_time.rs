//! Wall-clock time in Berlin, where the tracked rooms are.
//!
//! An instant is a number of nanoseconds since the Unix epoch. The offset
//! that Berlin applies at an instant comes from the IANA database through
//! `time_tz`; the weekday and hour that a clock with a given offset shows
//! are computed here.
use vstd::prelude::*;
use vstd::arithmetic::div_mod::{
    lemma_fundamental_div_mod, lemma_fundamental_div_mod_converse, lemma_hoist_over_denominator,
    lemma_mod_multiples_vanish,
};
use time::OffsetDateTime;
use time_tz::timezones::db::europe;
use time_tz::{Offset, TimeZone};

verus! {

/// Nanoseconds per second.
pub const NANOS_PER_SECOND: i128 = 1_000_000_000;

/// Seconds per day.
pub const SECONDS_PER_DAY: i128 = 86_400;

/// Seconds per hour.
pub const SECONDS_PER_HOUR: i128 = 3_600;

/// Earliest instant, in seconds since the Unix epoch, that is handled:
/// two days after the first instant of the year -9999.
pub const EARLIEST_SECOND: i128 = -377_705_030_400;

/// Latest instant, in seconds since the Unix epoch, that is handled:
/// two days before the last second of the year 9999.
pub const LATEST_SECOND: i128 = 253_402_127_999;

/// Largest magnitude, in seconds, of a UTC offset (25:59:59).
pub const MAX_OFFSET_SECONDS: i32 = 93_599;

/// A whole number of weeks, in seconds, longer than the distance from the
/// epoch back to `EARLIEST_SECOND`; adding it keeps the arithmetic below
/// on non-negative numbers without moving the weekday.
const SHIFT_SECONDS: i128 = 423_360_000_000;

/// Instants (Unix nanoseconds) that `time` can represent both in UTC and
/// shifted by any UTC offset.
pub open spec fn in_time_range(unix_nanos: int) -> bool {
    EARLIEST_SECOND * NANOS_PER_SECOND <= unix_nanos <= LATEST_SECOND * NANOS_PER_SECOND
}

/// The second, counted from the epoch on the local clock, that a clock
/// `offset` seconds ahead of UTC shows at the instant `unix_nanos`.
pub open spec fn local_second(unix_nanos: int, offset: int) -> int {
    unix_nanos / (NANOS_PER_SECOND as int) + offset
}

/// The weekday, counted from Monday, of a local second. The epoch fell on a Thursday.
pub open spec fn weekday_at(local: int) -> int {
    (local / (SECONDS_PER_DAY as int) + 3) % 7
}

/// The hour of the day of a local second.
pub open spec fn hour_at(local: int) -> int {
    (local % (SECONDS_PER_DAY as int)) / (SECONDS_PER_HOUR as int)
}

/// Whether an instant lies in `in_time_range`.
pub fn is_in_time_range(unix_nanos: i128) -> (in_range: bool)
    ensures
        in_range == in_time_range(unix_nanos as int),
{
    EARLIEST_SECOND * NANOS_PER_SECOND <= unix_nanos && unix_nanos <= LATEST_SECOND * NANOS_PER_SECOND
}

/// The offset from UTC, in seconds, of Berlin time at the instant
/// `unix_nanos`, as the IANA database (through `time_tz`) gives it.
pub uninterp spec fn berlin_offset(unix_nanos: i128) -> i32;

/// Looks up the offset of Berlin time at an instant with
/// `time_tz::TimeZone::get_offset_utc` on `europe::BERLIN`, read as whole seconds
/// through `time_tz::Offset::to_utc` and `time::UtcOffset::whole_seconds`.
/// Trusted: the result is the named `berlin_offset` of the instant, and lies
/// within ±25:59:59, the range of `time::UtcOffset`. The instant must lie in
/// `in_time_range`, so that `time::OffsetDateTime::from_unix_timestamp_nanos`
/// accepts it.
#[verifier::external_body]
pub fn berlin_utc_offset(unix_nanos: i128) -> (offset: i32)
    requires
        in_time_range(unix_nanos as int),
    ensures
        offset == berlin_offset(unix_nanos),
        -MAX_OFFSET_SECONDS <= offset <= MAX_OFFSET_SECONDS,
{
    let instant = OffsetDateTime::from_unix_timestamp_nanos(unix_nanos).unwrap();
    europe::BERLIN.get_offset_utc(&instant).to_utc().whole_seconds()
}

/// The weekday (0 is Monday) and hour that a clock `offset` seconds ahead
/// of UTC shows at the instant `unix_nanos`.
pub fn weekday_hour_at(unix_nanos: i128, offset: i32) -> (slot: (u8, u8))
    requires
        in_time_range(unix_nanos as int),
        -MAX_OFFSET_SECONDS <= offset <= MAX_OFFSET_SECONDS,
    ensures
        slot.0 as int == weekday_at(local_second(unix_nanos as int, offset as int)),
        slot.1 as int == hour_at(local_second(unix_nanos as int, offset as int)),
        slot.0 < 7,
        slot.1 < 24,
        // the hour: whole hours since the local midnight
        slot.1 as int * 3600 <= (unix_nanos as int / 1_000_000_000 + offset as int) % 86_400 < slot.1 as int
            * 3600 + 3600,
        // the weekday: whole days since the epoch (a Thursday), modulo a week
        slot.0 as int == ((unix_nanos as int / 1_000_000_000 + offset as int) / 86_400 + 3) % 7,
{
    let shifted: u128 = (unix_nanos + SHIFT_SECONDS * NANOS_PER_SECOND) as u128;
    let seconds: u128 = shifted / 1_000_000_000;
    let local: u128 = (seconds as i128 + offset as i128) as u128;
    let days: u128 = local / 86_400;
    let weekday: u8 = ((days + 3) % 7) as u8;
    let hour: u8 = ((local % 86_400) / 3_600) as u8;
    proof {
        let n = unix_nanos as int;
        let l = local_second(n, offset as int);
        lemma_hoist_over_denominator(n, SHIFT_SECONDS as int, 1_000_000_000);
        assert(seconds as int == n / 1_000_000_000 + SHIFT_SECONDS);
        assert(local as int == l + 4_900_000 * 86_400);
        lemma_hoist_over_denominator(l, 4_900_000, 86_400);
        assert(days as int == l / 86_400 + 4_900_000);
        lemma_mod_multiples_vanish(700_000, l / 86_400 + 3, 7);
        lemma_mod_multiples_vanish(4_900_000, l, 86_400);
        lemma_hour_bounds(l);
    }
    (weekday, hour)
}

/// The weekday (0 is Monday) and hour of the day in Berlin at the instant `unix_nanos`.
pub open spec fn berlin_weekday_hour(unix_nanos: i128) -> (int, int) {
    let local = local_second(unix_nanos as int, berlin_offset(unix_nanos) as int);
    (weekday_at(local), hour_at(local))
}

/// The weekday (0 is Monday) and hour of the day in Berlin at the instant `unix_nanos`.
pub fn berlin_weekday_hour_at(unix_nanos: i128) -> (slot: (u8, u8))
    requires
        in_time_range(unix_nanos as int),
    ensures
        (slot.0 as int, slot.1 as int) == berlin_weekday_hour(unix_nanos),
        slot.0 < 7,
        slot.1 < 24,
        // read off the Berlin clock at the offset in force at this very instant
        slot.1 as int * 3600 <= (unix_nanos as int / 1_000_000_000 + berlin_offset(unix_nanos) as int)
            % 86_400 < slot.1 as int * 3600 + 3600,
        slot.0 as int == ((unix_nanos as int / 1_000_000_000 + berlin_offset(unix_nanos) as int) / 86_400
            + 3) % 7,
{
    let offset = berlin_utc_offset(unix_nanos);
    weekday_hour_at(unix_nanos, offset)
}

proof fn lemma_hour_bounds(local: int)
    ensures
        hour_at(local) * 3600 <= local % 86_400 < hour_at(local) * 3600 + 3600,
{
    lemma_fundamental_div_mod(local % 86_400, 3600);
}

/// The local second is the instant's whole seconds, rounded down, plus the
/// clock's offset: the instant falls within that local second.
pub proof fn local_second_is_whole_seconds_plus_offset(unix_nanos: int, offset: int)
    ensures
        local_second(unix_nanos, offset) * 1_000_000_000 <= unix_nanos + offset * 1_000_000_000
            < local_second(unix_nanos, offset) * 1_000_000_000 + 1_000_000_000,
{
    lemma_fundamental_div_mod(unix_nanos, 1_000_000_000);
}

/// A clock shows hour `h` exactly during the local seconds `3600 h` to
/// `3600 h + 3599` of each day.
pub proof fn hour_counts_whole_hours_since_midnight(local: int, h: int)
    requires
        0 <= h < 24,
        h * 3600 <= local % 86_400 < h * 3600 + 3600,
    ensures
        hour_at(local) == h,
{
    lemma_fundamental_div_mod_converse(local % 86_400, 3600, h, local % 86_400 - h * 3600);
}

/// The weekday of every local second of day `days` after the epoch (a
/// Thursday, weekday 3) is `days + 3` modulo a week: it stays the same
/// throughout a day and moves on by one at each midnight.
pub proof fn weekday_counts_days_since_epoch(local: int, days: int)
    requires
        days * 86_400 <= local < days * 86_400 + 86_400,
    ensures
        weekday_at(local) == (days + 3) % 7,
{
    lemma_fundamental_div_mod_converse(local, 86_400, days, local - days * 86_400);
}

/// Berlin's weekday and hour at an instant are those that a clock at the
/// Berlin offset in force at that same instant shows: in day `days` after
/// the epoch, at local second `3600 h` to `3600 h + 3599` of the day, it is
/// weekday `days + 3` modulo a week and hour `h`.
pub proof fn berlin_clock_uses_offset_at_instant(unix_nanos: i128, days: int, h: int)
    requires
        0 <= h < 24,
        days * 86_400 + h * 3600 <= (unix_nanos as int / 1_000_000_000 + berlin_offset(unix_nanos) as int)
            < days * 86_400 + h * 3600 + 3600,
    ensures
        berlin_weekday_hour(unix_nanos) == ((days + 3) % 7, h),
{
    let l = unix_nanos as int / 1_000_000_000 + berlin_offset(unix_nanos) as int;
    weekday_counts_days_since_epoch(l, days);
    lemma_fundamental_div_mod_converse(l, 86_400, days, l - days * 86_400);
    hour_counts_whole_hours_since_midnight(l, h);
}

} // verus!
