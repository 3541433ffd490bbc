use webserver::models::location::Location;
use webserver::modules::test_data::{TestData, TestSample, HISTORY_SPAN_NANOS, SAMPLE_INTERVAL_NANOS};

const NANOS: i128 = 1_000_000_000;
/// 2024-01-01T00:00:00Z.
const NEW_YEAR_2024: i128 = 1_704_067_200 * NANOS;
/// 2024-03-31T12:00:00Z, after the switch to summer time.
const EASTER_2024_NOON: i128 = 1_711_886_400 * NANOS;

#[test]
fn nothing_is_generated_for_a_filled_database() {
    assert_eq!(TestData::init(1, NEW_YEAR_2024, NEW_YEAR_2024), None);
}

#[test]
fn four_weeks_every_five_minutes() {
    let plan = TestData::init(0, NEW_YEAR_2024, NEW_YEAR_2024).unwrap();
    // 4 weeks / 5 minutes = 8064 steps, both ends included, two rooms each.
    assert_eq!(plan.len(), 2 * 8065);
    assert_eq!(plan[0], TestSample { date_time: NEW_YEAR_2024, location: Location::Bunker, hour: 1 });
    assert_eq!(plan[1], TestSample { date_time: NEW_YEAR_2024, location: Location::Utopia, hour: 1 });
    assert_eq!(plan[2].date_time, NEW_YEAR_2024 - SAMPLE_INTERVAL_NANOS);
    assert_eq!(plan[2].hour, 0);
    let oldest = plan.last().unwrap();
    assert_eq!(oldest.date_time, NEW_YEAR_2024 - HISTORY_SPAN_NANOS);
    assert_eq!(oldest.location, Location::Utopia);
}

#[test]
fn start_later_than_now_counts_from_start() {
    let plan = TestData::init(0, NEW_YEAR_2024, NEW_YEAR_2024 + 7 * NANOS).unwrap();
    assert_eq!(plan.len(), 2 * 8065);
    assert_eq!(plan.last().unwrap().date_time, NEW_YEAR_2024 + 7 * NANOS - 8064 * SAMPLE_INTERVAL_NANOS);
}

#[test]
fn start_before_the_span_gives_nothing() {
    let plan = TestData::init(0, NEW_YEAR_2024, NEW_YEAR_2024 - HISTORY_SPAN_NANOS - 1).unwrap();
    assert!(plan.is_empty());
}

#[test]
fn hours_keep_the_offset_of_the_start() {
    let plan = TestData::init(0, EASTER_2024_NOON, EASTER_2024_NOON).unwrap();
    assert_eq!(plan[0].hour, 14);
    // One day earlier Berlin was still on winter time, but the clock keeps the summer offset.
    let day_before = &plan[2 * 288];
    assert_eq!(day_before.date_time, EASTER_2024_NOON - 86_400 * NANOS);
    assert_eq!(day_before.hour, 14);
}

#[test]
fn test_data_is_generated_at_most_once() {
    let plan = TestData::init(0, NEW_YEAR_2024, NEW_YEAR_2024).unwrap();
    assert!(!plan.is_empty());
    let stored = plan.len() as u64;
    assert_eq!(TestData::init(stored, NEW_YEAR_2024, NEW_YEAR_2024 + 3600 * NANOS), None);
}
