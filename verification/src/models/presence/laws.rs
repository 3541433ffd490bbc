use vstd::prelude::*;
use crate::local_time::{hour_counts_whole_hours_since_midnight, hour_at, weekday_at, local_second, berlin_offset};
use crate::models::presence::{count_sum, in_slot, is_weekly_grouping, slot_counts, slot_of, DAYS, HOURS};
use crate::models::presence::db::PresenceData;

verus! {

/// The number of readings taken on weekday `day` in its first `hours` hours.
pub open spec fn samples_in_hours(readings: Seq<PresenceData>, day: int, hours: int) -> int
    decreases hours,
{
    if hours <= 0 {
        0
    } else {
        samples_in_hours(readings, day, hours - 1) + slot_counts(readings, day, hours - 1).len()
    }
}

/// The number of readings taken in the first `days` weekdays, over all hours.
pub open spec fn samples_in_days(readings: Seq<PresenceData>, days: int) -> int
    decreases days,
{
    if days <= 0 {
        0
    } else {
        samples_in_days(readings, days - 1) + samples_in_hours(readings, days - 1, HOURS as int)
    }
}

proof fn lemma_slot_in_week(reading: PresenceData)
    ensures
        0 <= slot_of(reading).0 < DAYS,
        0 <= slot_of(reading).1 < HOURS,
{
    let local = local_second(reading.date_time as int, berlin_offset(reading.date_time) as int);
    assert(0 <= weekday_at(local) < 7);
    assert(0 <= local % 86_400 < 86_400);
    assert(0 <= hour_at(local) < 24);
}

proof fn lemma_slot_counts_push(readings: Seq<PresenceData>, reading: PresenceData, day: int, hour: int)
    ensures
        slot_counts(readings.push(reading), day, hour).len() == slot_counts(readings, day, hour).len()
            + if in_slot(day, hour)(reading) { 1int } else { 0int },
{
    readings.lemma_filter_push(reading, in_slot(day, hour));
}

proof fn lemma_hours_push(readings: Seq<PresenceData>, reading: PresenceData, day: int, hours: int)
    ensures
        samples_in_hours(readings.push(reading), day, hours) == samples_in_hours(readings, day, hours)
            + if slot_of(reading).0 == day && 0 <= slot_of(reading).1 < hours { 1int } else { 0int },
    decreases hours,
{
    if hours > 0 {
        lemma_hours_push(readings, reading, day, hours - 1);
        lemma_slot_counts_push(readings, reading, day, hours - 1);
    }
}

proof fn lemma_days_push(readings: Seq<PresenceData>, reading: PresenceData, days: int)
    ensures
        samples_in_days(readings.push(reading), days) == samples_in_days(readings, days)
            + if 0 <= slot_of(reading).0 < days { 1int } else { 0int },
    decreases days,
{
    lemma_slot_in_week(reading);
    if days > 0 {
        lemma_days_push(readings, reading, days - 1);
        lemma_hours_push(readings, reading, days - 1, HOURS as int);
    }
}

proof fn lemma_empty_days(readings: Seq<PresenceData>, days: int)
    requires
        readings.len() == 0,
    ensures
        samples_in_days(readings, days) == 0,
    decreases days,
{
    if days > 0 {
        lemma_empty_days(readings, days - 1);
        lemma_empty_hours(readings, days - 1, HOURS as int);
    }
}

proof fn lemma_empty_hours(readings: Seq<PresenceData>, day: int, hours: int)
    requires
        readings.len() == 0,
    ensures
        samples_in_hours(readings, day, hours) == 0,
    decreases hours,
{
    if hours > 0 {
        lemma_empty_hours(readings, day, hours - 1);
        reveal(Seq::filter);
    }
}

/// Every reading falls into exactly one hour of the week: over all weekdays
/// and hours, the slots hold as many head counts as there are readings.
pub proof fn every_reading_counted_once(readings: Seq<PresenceData>)
    ensures
        samples_in_days(readings, DAYS as int) == readings.len(),
    decreases readings.len(),
{
    if readings.len() == 0 {
        lemma_empty_days(readings, DAYS as int);
    } else {
        let rest = readings.drop_last();
        every_reading_counted_once(rest);
        lemma_days_push(rest, readings.last(), DAYS as int);
        assert(rest.push(readings.last()) =~= readings);
    }
}

/// A reading is in slot (`d`, `h`) exactly when the Berlin clock shows
/// weekday `d` and hour `h` at its own instant.
proof fn lemma_in_slot_is_berlin_clock(reading: PresenceData, d: int, h: int)
    requires
        0 <= h < 24,
    ensures
        in_slot(d, h)(reading) <==> ({
            let l = reading.date_time as int / 1_000_000_000 + berlin_offset(reading.date_time) as int;
            &&& (l / 86_400 + 3) % 7 == d
            &&& h * 3600 <= l % 86_400 < h * 3600 + 3600
        }),
{
    let l = reading.date_time as int / 1_000_000_000 + berlin_offset(reading.date_time) as int;
    vstd::arithmetic::div_mod::lemma_fundamental_div_mod(l % 86_400, 3600);
    if h * 3600 <= l % 86_400 < h * 3600 + 3600 {
        hour_counts_whole_hours_since_midnight(l, h);
    }
}

/// Each slot of a weekly history lists, in reading order, the head counts of
/// exactly those readings at whose own instant the Berlin clock (at the
/// offset then in force) shows that weekday and hour: weekday = whole days
/// since the epoch plus 3 (the epoch was a Thursday) modulo a week, and the
/// hour `h` whose local seconds `3600 h` to `3600 h + 3599` of the day
/// contain it.
pub proof fn readings_grouped_by_berlin_clock(week: Seq<Seq<Seq<i64>>>, readings: Seq<PresenceData>, d: int, h: int)
    requires
        is_weekly_grouping(week, readings),
        0 <= d < DAYS,
        0 <= h < HOURS,
    ensures
        week[d][h] == readings.filter(
            |reading: PresenceData|
                {
                    let l = reading.date_time as int / 1_000_000_000 + berlin_offset(reading.date_time) as int;
                    &&& (l / 86_400 + 3) % 7 == d
                    &&& h * 3600 <= l % 86_400 < h * 3600 + 3600
                },
        ).map_values(|reading: PresenceData| reading.count),
{
    let pred = |reading: PresenceData|
        {
            let l = reading.date_time as int / 1_000_000_000 + berlin_offset(reading.date_time) as int;
            &&& (l / 86_400 + 3) % 7 == d
            &&& h * 3600 <= l % 86_400 < h * 3600 + 3600
        };
    assert forall|reading: PresenceData| #[trigger] in_slot(d, h)(reading) == pred(reading) by {
        lemma_in_slot_is_berlin_clock(reading, d, h);
    };
    assert(in_slot(d, h) =~= pred);
}

/// The sum of head counts adds up: nothing sums to 0, a single count sums
/// to itself, and the sum of two sequences joined is the sum of their sums.
pub proof fn count_sum_adds_up(a: Seq<i64>, b: Seq<i64>, x: i64)
    ensures
        count_sum(Seq::<i64>::empty()) == 0,
        count_sum(seq![x]) == x,
        count_sum(a + b) == count_sum(a) + count_sum(b),
    decreases b.len(),
{
    assert(seq![x].drop_last() =~= Seq::<i64>::empty());
    if b.len() > 0 {
        count_sum_adds_up(a, b.drop_last(), x);
        assert((a + b).drop_last() =~= a + b.drop_last());
    } else {
        assert(a + b =~= a);
    }
}

/// The sum of `weight` over the readings.
pub open spec fn weighted(readings: Seq<PresenceData>, weight: spec_fn(PresenceData) -> int) -> int
    decreases readings.len(),
{
    if readings.len() == 0 {
        0
    } else {
        weighted(readings.drop_last(), weight) + weight(readings.last())
    }
}

proof fn lemma_weighted_remove(readings: Seq<PresenceData>, weight: spec_fn(PresenceData) -> int, i: int)
    requires
        0 <= i < readings.len(),
    ensures
        weighted(readings, weight) == weighted(readings.remove(i), weight) + weight(readings[i]),
    decreases readings.len(),
{
    if i == readings.len() - 1 {
        assert(readings.remove(i) =~= readings.drop_last());
    } else {
        let rest = readings.drop_last();
        lemma_weighted_remove(rest, weight, i);
        assert(readings.remove(i).drop_last() =~= rest.remove(i));
        assert(readings.remove(i).last() == readings.last());
    }
}

proof fn lemma_weighted_permutation(a: Seq<PresenceData>, b: Seq<PresenceData>, weight: spec_fn(PresenceData) -> int)
    requires
        a.to_multiset() == b.to_multiset(),
    ensures
        weighted(a, weight) == weighted(b, weight),
    decreases a.len(),
{
    vstd::seq_lib::to_multiset_len(a);
    vstd::seq_lib::to_multiset_len(b);
    if a.len() == 0 {
        assert(b.len() == 0);
    } else {
        let x = a.last();
        let rest = a.drop_last();
        vstd::seq_lib::to_multiset_build(rest, x);
        assert(rest.push(x) =~= a);
        assert(a.to_multiset().count(x) > 0);
        vstd::seq_lib::to_multiset_contains(b, x);
        let j = choose|j: int| 0 <= j < b.len() && b[j] == x;
        vstd::seq_lib::to_multiset_remove(b, j);
        assert(rest.to_multiset() =~= a.to_multiset().remove(x));
        lemma_weighted_permutation(rest, b.remove(j), weight);
        lemma_weighted_remove(b, weight, j);
    }
}

/// The head counts of a slot: a reading weighs its count if it was taken in
/// the slot, nothing otherwise.
pub open spec fn slot_count_weight(day: int, hour: int) -> spec_fn(PresenceData) -> int {
    |reading: PresenceData| if in_slot(day, hour)(reading) { reading.count as int } else { 0 }
}

/// A reading weighs one if it was taken in the slot, nothing otherwise.
pub open spec fn slot_member_weight(day: int, hour: int) -> spec_fn(PresenceData) -> int {
    |reading: PresenceData| if in_slot(day, hour)(reading) { 1int } else { 0 }
}

proof fn lemma_slot_counts_weighted(readings: Seq<PresenceData>, day: int, hour: int)
    ensures
        count_sum(slot_counts(readings, day, hour)) == weighted(readings, slot_count_weight(day, hour)),
        slot_counts(readings, day, hour).len() == weighted(readings, slot_member_weight(day, hour)),
    decreases readings.len(),
{
    if readings.len() == 0 {
        reveal(Seq::filter);
    } else {
        let rest = readings.drop_last();
        let x = readings.last();
        lemma_slot_counts_weighted(rest, day, hour);
        assert(rest.push(x) =~= readings);
        rest.lemma_filter_push(x, in_slot(day, hour));
        let f = rest.filter(in_slot(day, hour));
        f.lemma_push_map_commute(|reading: PresenceData| reading.count, x);
        if in_slot(day, hour)(x) {
            let m = f.push(x).map_values(|reading: PresenceData| reading.count);
            assert(m.drop_last() =~= f.map_values(|reading: PresenceData| reading.count));
        }
    }
}

/// The sums and numbers of head counts per slot do not depend on the order
/// of the readings: two sequences holding the same readings give the same
/// sum and number for every weekday and hour.
pub proof fn slot_totals_reorder_invariant(a: Seq<PresenceData>, b: Seq<PresenceData>)
    requires
        a.to_multiset() == b.to_multiset(),
    ensures
        forall|day: int, hour: int| #[trigger] count_sum(slot_counts(a, day, hour))
            == count_sum(slot_counts(b, day, hour)),
        forall|day: int, hour: int| #[trigger] slot_counts(a, day, hour).len()
            == slot_counts(b, day, hour).len(),
{
    assert forall|day: int, hour: int| #[trigger] count_sum(slot_counts(a, day, hour))
        == count_sum(slot_counts(b, day, hour)) by {
        lemma_slot_counts_weighted(a, day, hour);
        lemma_slot_counts_weighted(b, day, hour);
        lemma_weighted_permutation(a, b, slot_count_weight(day, hour));
    };
    assert forall|day: int, hour: int| #[trigger] slot_counts(a, day, hour).len()
        == slot_counts(b, day, hour).len() by {
        lemma_slot_counts_weighted(a, day, hour);
        lemma_slot_counts_weighted(b, day, hour);
        lemma_weighted_permutation(a, b, slot_member_weight(day, hour));
    };
}

} // verus!
