use vstd::prelude::*;
use vstd::arithmetic::div_mod::lemma_fundamental_div_mod_converse;
use crate::local_time::{
    berlin_offset, berlin_utc_offset, hour_at, in_time_range, local_second, weekday_hour_at, MAX_OFFSET_SECONDS,
    NANOS_PER_SECOND,
};
use crate::models::location::{all_locations, Location};

verus! {

/// The start-up step that fills an empty database with synthetic readings.
pub struct TestData;

/// Time between two synthetic readings of a room: five minutes, in nanoseconds.
pub const SAMPLE_INTERVAL_NANOS: i128 = 300 * NANOS_PER_SECOND;

/// How far back the synthetic readings reach: four weeks, in nanoseconds.
pub const HISTORY_SPAN_NANOS: i128 = 2_419_200 * NANOS_PER_SECOND;

/// One synthetic reading to be generated: when, of which room, and the
/// hour of the day that decides how busy the room is made to look.
#[derive(Clone, Copy, Debug, PartialEq, Eq, Structural)]
pub struct TestSample {
    pub date_time: i128,
    pub location: Location,
    pub hour: u8,
}

/// The instant of the `k`-th reading time, counting back from `start`.
pub open spec fn sample_time(start: int, k: int) -> int {
    start - k * SAMPLE_INTERVAL_NANOS
}

/// How many reading times there are from `start` back to four weeks before `now`.
pub open spec fn sample_time_count(now: int, start: int) -> int {
    if start < now - HISTORY_SPAN_NANOS {
        0
    } else {
        (start - (now - HISTORY_SPAN_NANOS)) / (SAMPLE_INTERVAL_NANOS as int) + 1
    }
}

/// The reading of room `location` at the `k`-th reading time; its hour is read
/// on a clock that keeps the Berlin offset `offset` in force at `start`.
pub open spec fn test_sample(start: int, offset: int, k: int, location: Location) -> TestSample {
    let t = sample_time(start, k);
    TestSample { date_time: t as i128, location, hour: hour_at(local_second(t, offset)) as u8 }
}

/// `samples` holds, for each of the first `count` reading times, one reading
/// of every location in the order of `all_locations`.
pub open spec fn is_test_plan(samples: Seq<TestSample>, start: int, offset: int, count: int) -> bool {
    &&& samples.len() == count * 2
    &&& forall|k: int, j: int|
        0 <= k < count && 0 <= j < 2 ==> #[trigger] samples[k * 2 + j] == test_sample(
            start,
            offset,
            k,
            all_locations()[j],
        )
}

/// Appends one reading of every location, all taken at `curr` with hour `hour`.
fn push_samples(data: &mut Vec<TestSample>, locations: &Vec<Location>, curr: i128, hour: u8)
    ensures
        final(data)@.len() == old(data)@.len() + locations@.len(),
        forall|i: int| 0 <= i < old(data)@.len() ==> #[trigger] final(data)@[i] == old(data)@[i],
        forall|j: int| 0 <= j < locations@.len() ==> #[trigger] final(data)@[old(data)@.len() + j]
            == (TestSample { date_time: curr, location: locations@[j], hour }),
{
    let ghost initial = data@;
    let mut j: usize = 0;
    while j < locations.len()
        invariant
            j <= locations.len(),
            data@.len() == initial.len() + j,
            forall|i: int| 0 <= i < initial.len() ==> #[trigger] data@[i] == initial[i],
            forall|jj: int| 0 <= jj < j ==> #[trigger] data@[initial.len() + jj]
                == (TestSample { date_time: curr, location: locations@[jj], hour }),
        decreases locations.len() - j,
    {
        data.push(TestSample { date_time: curr, location: locations[j], hour });
        j = j + 1;
    }
}

/// Whether synthetic readings are generated for a database holding
/// `existing` readings.
pub open spec fn generates_test_data(existing: int) -> bool {
    existing == 0
}

impl TestData {
    /// Plans the synthetic readings: none (`None`) when the database already
    /// holds `existing` > 0 readings; otherwise a reading of every location
    /// every five minutes, from `start` back to four weeks before `now`, the
    /// newest first.
    pub fn init(existing: u64, now: i128, start: i128) -> (plan: Option<Vec<TestSample>>)
        requires
            in_time_range(start as int),
            in_time_range(now - HISTORY_SPAN_NANOS),
        ensures
            plan is Some <==> generates_test_data(existing as int),
            existing > 0 ==> plan is None,
            existing == 0 ==> forall|i: int|
                0 <= i < plan->0@.len() ==> #[trigger] plan->0@[i].location == (if i % 2 == 0 {
                    Location::Bunker
                } else {
                    Location::Utopia
                }),
            existing == 0 ==> plan is Some && is_test_plan(
                plan->0@,
                start as int,
                berlin_offset(start) as int,
                sample_time_count(now as int, start as int),
            ),
    {
        if existing > 0 {
            return None;
        }
        let last = now - HISTORY_SPAN_NANOS;
        let offset = berlin_utc_offset(start);
        let locations = Location::all();
        let mut data: Vec<TestSample> = Vec::new();
        let mut curr = start;
        let ghost mut k: int = 0;
        while curr >= last
            invariant
                in_time_range(start as int),
                in_time_range(last as int),
                offset == berlin_offset(start),
                -MAX_OFFSET_SECONDS <= offset <= MAX_OFFSET_SECONDS,
                locations@ == all_locations(),
                k >= 0,
                curr == sample_time(start as int, k),
                k > 0 ==> sample_time(start as int, k - 1) >= last,
                is_test_plan(data@, start as int, offset as int, k),
                forall|i: int| 0 <= i < data@.len() ==> #[trigger] data@[i].location == (if i % 2 == 0 {
                    Location::Bunker
                } else {
                    Location::Utopia
                }),
            decreases curr - last + SAMPLE_INTERVAL_NANOS,
        {
            let (_, hour) = weekday_hour_at(curr, offset);
            let ghost before = data@;
            push_samples(&mut data, &locations, curr, hour);
            proof {
                assert forall|kk: int, jj: int| 0 <= kk < k + 1 && 0 <= jj < 2 implies #[trigger] data@[kk * 2 + jj]
                    == test_sample(start as int, offset as int, kk, all_locations()[jj]) by {
                    if kk < k {
                        assert(data@[kk * 2 + jj] == before[kk * 2 + jj]);
                    }
                };
                assert forall|i: int| 0 <= i < data@.len() implies #[trigger] data@[i].location == (if i % 2
                    == 0 {
                    Location::Bunker
                } else {
                    Location::Utopia
                }) by {
                    if i >= before.len() {
                        assert(data@[before.len() + (i - before.len())] == data@[i]);
                        assert(i % 2 == i - k * 2);
                    } else {
                        assert(data@[i] == before[i]);
                    }
                };
                k = k + 1;
            }
            curr = curr - SAMPLE_INTERVAL_NANOS;
        }
        proof {
            if k > 0 {
                lemma_fundamental_div_mod_converse(
                    start - last,
                    SAMPLE_INTERVAL_NANOS as int,
                    k - 1,
                    start - last - (k - 1) * SAMPLE_INTERVAL_NANOS,
                );
            }
        }
        Some(data)
    }
}

/// A plan is made only for an empty database: whenever readings exist,
/// nothing is generated.
pub proof fn test_data_only_for_empty_database(existing: int)
    requires
        existing >= 0,
    ensures
        generates_test_data(existing) <==> existing == 0,
{
}

/// A plan holds, at every reading time `k` (five minutes apart, counting
/// back from `start`), exactly one reading of each room, Bunker first and
/// Utopia second; its hour is the hour a clock `offset` seconds ahead of UTC
/// shows then (local seconds `3600 h` to `3600 h + 3599` of the day).
pub proof fn test_plan_reads_every_room_every_five_minutes(
    samples: Seq<TestSample>,
    start: int,
    offset: int,
    count: int,
    k: int,
)
    requires
        is_test_plan(samples, start, offset, count),
        0 <= k < count,
    ensures
        samples.len() == count * 2,
        samples[k * 2].location == Location::Bunker,
        samples[k * 2 + 1].location == Location::Utopia,
        samples[k * 2].date_time == (start - k * 300_000_000_000) as i128,
        samples[k * 2 + 1].date_time == (start - k * 300_000_000_000) as i128,
        samples[k * 2].hour == samples[k * 2 + 1].hour,
        samples[k * 2].hour < 24,
        samples[k * 2].hour as int * 3600 <= ((start - k * 300_000_000_000) / 1_000_000_000 + offset) % 86_400
            < samples[k * 2].hour as int * 3600 + 3600,
{
    let s0 = samples[k * 2 + 0];
    let s1 = samples[k * 2 + 1];
    assert(s0 == test_sample(start, offset, k, all_locations()[0]));
    assert(s1 == test_sample(start, offset, k, all_locations()[1]));
    let l = local_second(start - k * SAMPLE_INTERVAL_NANOS, offset);
    vstd::arithmetic::div_mod::lemma_fundamental_div_mod(l % 86_400, 3600);
    assert(0 <= hour_at(l) < 24);
}

/// Synthetic readings are generated at most once: once a plan has been
/// stored, the database holds its readings and the next start-up plans
/// nothing. The plan is never empty when `start` is not earlier than four
/// weeks before `now` (at start-up `start` is read after `now`).
pub proof fn test_data_generated_once(existing: int, now: int, start: int)
    requires
        existing >= 0,
        start >= now - HISTORY_SPAN_NANOS,
    ensures
        generates_test_data(existing) ==> sample_time_count(now, start) * 2 > 0,
        !generates_test_data(
            existing + if generates_test_data(existing) { sample_time_count(now, start) * 2 } else { 0 },
        ),
{
    if existing == 0 {
        assert((start - (now - HISTORY_SPAN_NANOS)) / (SAMPLE_INTERVAL_NANOS as int) >= 0);
    }
}

/// The reading times are five minutes apart, the newest at `start`, none
/// earlier than four weeks before `now`, and the next one would be.
pub proof fn test_data_spans_four_weeks(now: int, start: int)
    ensures
        forall|k: int|
            0 <= k < sample_time_count(now, start) ==> #[trigger] sample_time(start, k) >= now
                - HISTORY_SPAN_NANOS,
        sample_time(start, sample_time_count(now, start)) < now - HISTORY_SPAN_NANOS,
        forall|k: int| #[trigger] sample_time(start, k + 1) == sample_time(start, k) - SAMPLE_INTERVAL_NANOS,
        start >= now - HISTORY_SPAN_NANOS ==> sample_time_count(now, start) >= 1
            && sample_time(start, 0) == start,
{
    let n = sample_time_count(now, start);
    let last = now - HISTORY_SPAN_NANOS;
    if start >= last {
        let q = (start - last) / (SAMPLE_INTERVAL_NANOS as int);
        let r = (start - last) % (SAMPLE_INTERVAL_NANOS as int);
        assert(start - last == q * SAMPLE_INTERVAL_NANOS + r) by {
            vstd::arithmetic::div_mod::lemma_fundamental_div_mod(start - last, SAMPLE_INTERVAL_NANOS as int);
        };
        assert forall|k: int| 0 <= k < n implies #[trigger] sample_time(start, k) >= last by {
            assert(k * SAMPLE_INTERVAL_NANOS <= q * SAMPLE_INTERVAL_NANOS);
        };
    }
}

} // verus!
