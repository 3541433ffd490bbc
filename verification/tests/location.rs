use webserver::models::location::Location;

#[test]
fn names_match_the_stored_keys() {
    assert_eq!(Location::Bunker.name(), "Bunker");
    assert_eq!(Location::Utopia.name(), "Utopia");
    assert_eq!(Location::Bunker.to_string(), "Bunker".to_string());
    assert_eq!(Location::Utopia.to_string(), "Utopia".to_string());
}

#[test]
fn all_lists_every_location_once_in_order() {
    assert_eq!(Location::all(), vec![Location::Bunker, Location::Utopia]);
}

#[test]
fn names_are_distinct_and_fit_the_column() {
    let all = Location::all();
    for a in &all {
        assert!(!a.name().is_empty());
        assert!(a.name().chars().count() <= webserver::models::location::MAX_NAME_LEN);
        for b in &all {
            assert_eq!(a == b, a.name() == b.name());
        }
    }
}

#[test]
fn init_db_seeds_only_an_empty_table() {
    assert_eq!(Location::init_db(0), vec![Location::Bunker, Location::Utopia]);
    assert!(Location::init_db(1).is_empty());
    assert!(Location::init_db(2).is_empty());
    assert!(Location::init_db(-1).is_empty());
}
