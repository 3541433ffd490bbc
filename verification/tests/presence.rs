use webserver::local_time::{berlin_utc_offset, berlin_weekday_hour_at, weekday_hour_at};
use webserver::models::location::Location;
use webserver::models::presence::db::PresenceData;
use webserver::models::presence::{CurrentPresence, HourlyTotal, Presence, PresenceError};

const NANOS: i128 = 1_000_000_000;
/// 2024-01-01T00:00:00Z, a Monday.
const NEW_YEAR_2024: i128 = 1_704_067_200 * NANOS;
/// 2024-07-01T12:00:00Z, a Monday.
const JULY_2024_NOON: i128 = 1_719_835_200 * NANOS;

fn reading(date_time: i128, count: i64) -> PresenceData {
    PresenceData { uuid: 0, date_time, location: Location::Bunker, count }
}

#[test]
fn offset_follows_daylight_saving() {
    assert_eq!(berlin_utc_offset(NEW_YEAR_2024), 3600);
    assert_eq!(berlin_utc_offset(JULY_2024_NOON), 7200);
}

#[test]
fn weekday_and_hour_on_a_fixed_clock() {
    assert_eq!(weekday_hour_at(0, 0), (3, 0));
    assert_eq!(weekday_hour_at(-3600 * NANOS, 0), (2, 23));
    assert_eq!(weekday_hour_at(-1, 0), (2, 23));
    assert_eq!(weekday_hour_at(NEW_YEAR_2024, 3600), (0, 1));
    assert_eq!(weekday_hour_at(NEW_YEAR_2024, -3600), (6, 23));
}

#[test]
fn weekday_and_hour_in_berlin() {
    assert_eq!(berlin_weekday_hour_at(NEW_YEAR_2024), (0, 1));
    assert_eq!(berlin_weekday_hour_at(JULY_2024_NOON), (0, 14));
    // Sunday 23:30 UTC is already Monday in Berlin.
    assert_eq!(berlin_weekday_hour_at(NEW_YEAR_2024 + (6 * 86_400 + 23 * 3600 + 1800) * NANOS), (0, 0));
}

#[test]
fn historic_presence_of_nothing_is_an_empty_week() {
    let week = Presence::historic_presence(&vec![]);
    assert_eq!(week.len(), 7);
    for day in &week {
        assert_eq!(day.len(), 24);
        assert!(day.iter().all(|hour| hour.is_empty()));
    }
}

#[test]
fn historic_presence_groups_by_berlin_weekday_and_hour() {
    let readings = vec![
        reading(NEW_YEAR_2024, 3),
        reading(JULY_2024_NOON, 7),
        reading(NEW_YEAR_2024 + 600 * NANOS, 5),
        reading(NEW_YEAR_2024 + 86_400 * NANOS, 2),
    ];
    let week = Presence::historic_presence(&readings);
    assert_eq!(week[0][1], vec![3, 5]);
    assert_eq!(week[0][14], vec![7]);
    assert_eq!(week[1][1], vec![2]);
    let total: usize = week.iter().map(|day| day.iter().map(|hour| hour.len()).sum::<usize>()).sum();
    assert_eq!(total, readings.len());
}

#[test]
fn hourly_total_sums_and_counts() {
    assert_eq!(Presence::hourly_total(&vec![]), HourlyTotal { sum: 0, samples: 0 });
    assert_eq!(Presence::hourly_total(&vec![3, 4, -1]), HourlyTotal { sum: 6, samples: 3 });
    assert_eq!(
        Presence::hourly_total(&vec![i64::MAX, i64::MAX]),
        HourlyTotal { sum: 2 * i64::MAX as i128, samples: 2 }
    );
}

#[test]
fn weekly_totals_cover_every_slot() {
    let readings = vec![reading(NEW_YEAR_2024, 3), reading(NEW_YEAR_2024 + 60 * NANOS, 4)];
    let week = Presence::historic_presence(&readings);
    let totals = Presence::weekly_totals(&week);
    assert_eq!(totals.len(), 7);
    assert_eq!(totals[0][1], HourlyTotal { sum: 7, samples: 2 });
    assert_eq!(totals[0][2], HourlyTotal { sum: 0, samples: 0 });
    assert!(totals.iter().all(|day| day.len() == 24));
}

#[test]
fn current_presence_reports_the_latest_reading() {
    let latest = reading(JULY_2024_NOON, 12);
    assert_eq!(
        Presence::current_presence(Some(latest), Some(NEW_YEAR_2024)),
        Ok(CurrentPresence { current_count: 12, current_time: JULY_2024_NOON, last_vacancy: NEW_YEAR_2024 })
    );
}

#[test]
fn current_presence_truncates_the_count() {
    let got = Presence::current_presence(Some(reading(0, 300)), Some(0)).unwrap();
    assert_eq!(got.current_count, 44);
    let got = Presence::current_presence(Some(reading(0, -1)), Some(0)).unwrap();
    assert_eq!(got.current_count, 255);
}

#[test]
fn current_presence_errors() {
    assert_eq!(Presence::current_presence(None, Some(0)), Err(PresenceError::NoPresenceData));
    assert_eq!(Presence::current_presence(None, None), Err(PresenceError::NoPresenceData));
    assert_eq!(Presence::current_presence(Some(reading(0, 1)), None), Err(PresenceError::NoVacancy));
}

#[test]
fn slot_totals_do_not_depend_on_reading_order() {
    let readings = vec![
        reading(NEW_YEAR_2024, 3),
        reading(JULY_2024_NOON, 7),
        reading(NEW_YEAR_2024 + 600 * NANOS, 5),
        reading(NEW_YEAR_2024 + 86_400 * NANOS, 2),
    ];
    let mut reversed = readings.clone();
    reversed.reverse();
    let totals = Presence::weekly_totals(&Presence::historic_presence(&readings));
    let reversed_totals = Presence::weekly_totals(&Presence::historic_presence(&reversed));
    assert_eq!(totals, reversed_totals);
    assert_eq!(reversed_totals[0][1], HourlyTotal { sum: 8, samples: 2 });
}
