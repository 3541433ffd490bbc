use vstd::prelude::*;
use crate::local_time::{berlin_weekday_hour, berlin_weekday_hour_at, in_time_range};
use crate::models::presence::db::PresenceData;

pub mod db;
pub mod laws;

verus! {

/// Days in a week.
pub const DAYS: usize = 7;

/// Hours in a day.
pub const HOURS: usize = 24;

/// Queries over the recorded occupancy.
pub struct Presence;

/// The weekday and hour (Berlin time) at which a reading was taken.
pub open spec fn slot_of(reading: PresenceData) -> (int, int) {
    berlin_weekday_hour(reading.date_time)
}

/// Whether a reading was taken on weekday `day` at hour `hour`.
pub open spec fn in_slot(day: int, hour: int) -> spec_fn(PresenceData) -> bool {
    |reading: PresenceData| slot_of(reading).0 == day && slot_of(reading).1 == hour
}

/// The head counts of the readings taken on weekday `day` at hour `hour`,
/// in the order of the readings.
pub open spec fn slot_counts(readings: Seq<PresenceData>, day: int, hour: int) -> Seq<i64> {
    readings.filter(in_slot(day, hour)).map_values(|reading: PresenceData| reading.count)
}

/// `week` holds, for each weekday and hour, the head counts of `readings` taken then.
pub open spec fn is_weekly_grouping(week: Seq<Seq<Seq<i64>>>, readings: Seq<PresenceData>) -> bool {
    &&& week.len() == DAYS
    &&& forall|d: int| 0 <= d < DAYS ==> #[trigger] week[d].len() == HOURS
    &&& forall|d: int, h: int|
        0 <= d < DAYS && 0 <= h < HOURS ==> #[trigger] week[d][h] == slot_counts(readings, d, h)
}

/// The nested sequences that a week of `Vec`s holds.
pub open spec fn week_view(week: Vec<Vec<Vec<i64>>>) -> Seq<Seq<Seq<i64>>> {
    week@.map_values(|day: Vec<Vec<i64>>| day@.map_values(|hour: Vec<i64>| hour@))
}

/// Why the current occupancy of a room cannot be reported.
#[derive(Clone, Copy, Debug, PartialEq, Eq, Structural)]
pub enum PresenceError {
    /// No reading has been recorded for the room.
    NoPresenceData,
    /// No reading of the room has ever counted zero people.
    NoVacancy,
}

/// The latest state of a room.
#[derive(Clone, Copy, Debug, PartialEq, Eq, Structural)]
pub struct CurrentPresence {
    /// The head count of the latest reading, truncated to eight bits.
    pub current_count: u8,
    /// When the latest reading was taken (Unix nanoseconds).
    pub current_time: i128,
    /// When the room was last counted empty (Unix nanoseconds).
    pub last_vacancy: i128,
}

/// The sum of a sequence of head counts.
pub open spec fn count_sum(counts: Seq<i64>) -> int
    decreases counts.len(),
{
    if counts.len() == 0 {
        0
    } else {
        count_sum(counts.drop_last()) + counts.last()
    }
}

/// The head counts recorded in one hour slot, summed, and how many there
/// were; their quotient is the slot's mean occupancy (0 for an empty slot).
#[derive(Clone, Copy, Debug, PartialEq, Eq, Structural)]
pub struct HourlyTotal {
    pub sum: i128,
    pub samples: usize,
}

/// `totals` holds, for each weekday and hour, the sum and number of the head counts in `week`.
pub open spec fn is_weekly_total(totals: Seq<Seq<HourlyTotal>>, week: Seq<Seq<Seq<i64>>>) -> bool {
    &&& totals.len() == DAYS
    &&& forall|d: int| 0 <= d < DAYS ==> #[trigger] totals[d].len() == HOURS
    &&& forall|d: int, h: int| 0 <= d < DAYS && 0 <= h < HOURS ==> {
        &&& #[trigger] totals[d][h].sum == count_sum(week[d][h])
        &&& totals[d][h].samples == week[d][h].len()
    }
}

/// The nested sequences that a week of hourly totals holds.
pub open spec fn totals_view(totals: Vec<Vec<HourlyTotal>>) -> Seq<Seq<HourlyTotal>> {
    totals@.map_values(|day: Vec<HourlyTotal>| day@)
}

/// `week` has a slot for each hour of each weekday.
pub open spec fn is_week_shaped(week: Seq<Seq<Seq<i64>>>) -> bool {
    &&& week.len() == DAYS
    &&& forall|d: int| 0 <= d < DAYS ==> #[trigger] week[d].len() == HOURS
}

impl Presence {
    /// Reports the latest state of a room from its latest reading and the
    /// time of its latest reading that counted nobody.
    pub fn current_presence(latest: Option<PresenceData>, last_vacancy: Option<i128>) -> (current:
        Result<CurrentPresence, PresenceError>)
        ensures
            latest is None ==> current == Err::<CurrentPresence, PresenceError>(PresenceError::NoPresenceData),
            latest is Some && last_vacancy is None ==> current == Err::<CurrentPresence, PresenceError>(
                PresenceError::NoVacancy,
            ),
            latest is Some && last_vacancy is Some ==> current == Ok::<CurrentPresence, PresenceError>(
                CurrentPresence {
                    current_count: latest->0.count as u8,
                    current_time: latest->0.date_time,
                    last_vacancy: last_vacancy->0,
                },
            ),
    {
        match latest {
            None => Err(PresenceError::NoPresenceData),
            Some(reading) => match last_vacancy {
                None => Err(PresenceError::NoVacancy),
                Some(vacant) => Ok(
                    CurrentPresence {
                        current_count: reading.count as u8,
                        current_time: reading.date_time,
                        last_vacancy: vacant,
                    },
                ),
            },
        }
    }

    /// Sums the head counts of one hour slot and counts them.
    pub fn hourly_total(counts: &Vec<i64>) -> (total: HourlyTotal)
        ensures
            total.sum == count_sum(counts@),
            total.samples == counts.len(),
    {
        let mut sum: i128 = 0;
        let mut i: usize = 0;
        while i < counts.len()
            invariant
                i <= counts.len(),
                sum == count_sum(counts@.take(i as int)),
                -(i as int) * 0x8000_0000_0000_0000 <= sum <= (i as int) * 0x7fff_ffff_ffff_ffff,
            decreases counts.len() - i,
        {
            assert(counts@.take(i + 1).drop_last() =~= counts@.take(i as int));
            sum = sum + counts[i] as i128;
            i = i + 1;
        }
        assert(counts@.take(counts.len() as int) =~= counts@);
        HourlyTotal { sum, samples: counts.len() }
    }

    /// Sums and counts the head counts of every hour slot of a week.
    pub fn weekly_totals(data: &Vec<Vec<Vec<i64>>>) -> (totals: Vec<Vec<HourlyTotal>>)
        requires
            is_week_shaped(week_view(*data)),
        ensures
            is_weekly_total(totals_view(totals), week_view(*data)),
    {
        let ghost week = week_view(*data);
        let mut totals: Vec<Vec<HourlyTotal>> = Vec::new();
        let mut d: usize = 0;
        while d < DAYS
            invariant
                d <= DAYS,
                week == week_view(*data),
                is_week_shaped(week),
                totals.len() == d,
                forall|j: int| 0 <= j < d ==> #[trigger] totals@[j]@.len() == HOURS,
                forall|j: int, h: int| 0 <= j < d && 0 <= h < HOURS ==> {
                    &&& #[trigger] totals@[j]@[h].sum == count_sum(week[j][h])
                    &&& totals@[j]@[h].samples == week[j][h].len()
                },
            decreases DAYS - d,
        {
            assert(week[d as int] == data@[d as int]@.map_values(|hour: Vec<i64>| hour@));
            assert(week[d as int].len() == HOURS);
            let mut day: Vec<HourlyTotal> = Vec::new();
            let mut h: usize = 0;
            while h < HOURS
                invariant
                    d < DAYS,
                    h <= HOURS,
                    week == week_view(*data),
                    is_week_shaped(week),
                    week[d as int] == data@[d as int]@.map_values(|hour: Vec<i64>| hour@),
                    data@[d as int]@.len() == HOURS,
                    day.len() == h,
                    forall|k: int| 0 <= k < h ==> {
                        &&& #[trigger] day@[k].sum == count_sum(week[d as int][k])
                        &&& day@[k].samples == week[d as int][k].len()
                    },
                decreases HOURS - h,
            {
                assert(week[d as int][h as int] == data@[d as int]@[h as int]@);
                let total = Self::hourly_total(&data[d][h]);
                day.push(total);
                h = h + 1;
            }
            totals.push(day);
            d = d + 1;
        }
        totals
    }

    /// Groups readings by the weekday and hour (Berlin time) at which they
    /// were taken: entry `[d][h]` lists, in order, the head counts of the
    /// readings taken on weekday `d` (0 is Monday) at hour `h`.
    pub fn historic_presence(raw_data: &Vec<PresenceData>) -> (data: Vec<Vec<Vec<i64>>>)
        requires
            forall|i: int| 0 <= i < raw_data.len() ==> in_time_range(#[trigger] raw_data@[i].date_time as int),
        ensures
            is_weekly_grouping(week_view(data), raw_data@),
    {
        let mut data: Vec<Vec<Vec<i64>>> = Vec::new();
        let mut d: usize = 0;
        while d < DAYS
            invariant
                d <= DAYS,
                data.len() == d,
                forall|j: int| 0 <= j < d ==> #[trigger] data@[j]@.len() == HOURS,
                forall|j: int, h: int| 0 <= j < d && 0 <= h < HOURS ==> #[trigger] data@[j]@[h]@.len() == 0,
            decreases DAYS - d,
        {
            let mut day: Vec<Vec<i64>> = Vec::new();
            let mut h: usize = 0;
            while h < HOURS
                invariant
                    h <= HOURS,
                    day.len() == h,
                    forall|k: int| 0 <= k < h ==> #[trigger] day@[k]@.len() == 0,
                decreases HOURS - h,
            {
                day.push(Vec::new());
                h = h + 1;
            }
            data.push(day);
            d = d + 1;
        }
        let mut i: usize = 0;
        while i < raw_data.len()
            invariant
                i <= raw_data.len(),
                forall|k: int| 0 <= k < raw_data.len() ==> in_time_range(#[trigger] raw_data@[k].date_time as int),
                data.len() == DAYS,
                forall|j: int| 0 <= j < DAYS ==> #[trigger] data@[j]@.len() == HOURS,
                forall|j: int, h: int| 0 <= j < DAYS && 0 <= h < HOURS
                    ==> #[trigger] data@[j]@[h]@ == slot_counts(raw_data@.take(i as int), j, h),
            decreases raw_data.len() - i,
        {
            let reading = raw_data[i];
            let (wd, hr) = berlin_weekday_hour_at(reading.date_time);
            assert(data@[wd as int]@.len() == HOURS);
            data[wd as usize][hr as usize].push(reading.count);
            proof {
                let taken = raw_data@.take(i as int);
                assert(raw_data@.take(i + 1) =~= taken.push(reading));
                assert forall|j: int, h: int| 0 <= j < DAYS && 0 <= h < HOURS
                    implies #[trigger] data@[j]@[h]@ == slot_counts(raw_data@.take(i + 1), j, h) by {
                    taken.lemma_filter_push(reading, in_slot(j, h));
                    taken.filter(in_slot(j, h)).lemma_push_map_commute(
                        |reading: PresenceData| reading.count, reading);
                };
            }
            i = i + 1;
        }
        proof {
            assert(raw_data@.take(raw_data.len() as int) =~= raw_data@);
            let week = week_view(data);
            assert forall|d: int| 0 <= d < DAYS implies #[trigger] week[d].len() == HOURS by {
                assert(week[d] == data@[d]@.map_values(|hour: Vec<i64>| hour@));
            };
            assert forall|d: int, h: int| 0 <= d < DAYS && 0 <= h < HOURS
                implies #[trigger] week[d][h] == slot_counts(raw_data@, d, h) by {
                assert(week[d] == data@[d]@.map_values(|hour: Vec<i64>| hour@));
            };
        }
        data
    }
}

} // verus!
