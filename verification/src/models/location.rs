use vstd::prelude::*;

verus! {

/// A room whose occupancy is tracked.
#[derive(Clone, Copy, Debug, PartialEq, Eq, Structural)]
pub enum Location {
    Bunker,
    Utopia,
}

/// The name under which a location is stored and shown.
pub open spec fn location_name(location: Location) -> Seq<char> {
    match location {
        Location::Bunker => "Bunker"@,
        Location::Utopia => "Utopia"@,
    }
}

/// Every location, in declaration order.
pub open spec fn all_locations() -> Seq<Location> {
    seq![Location::Bunker, Location::Utopia]
}

/// The locations stored when the table of locations, holding `existing`
/// rows, is seeded.
pub open spec fn seeded_locations(existing: int) -> Seq<Location> {
    if existing == 0 {
        all_locations()
    } else {
        Seq::empty()
    }
}

impl Location {
    /// Every location, in declaration order.
    pub fn all() -> (locations: Vec<Location>)
        ensures
            locations@ == all_locations(),
            locations@ == seq![Location::Bunker, Location::Utopia],
    {
        let mut locations = Vec::new();
        locations.push(Location::Bunker);
        locations.push(Location::Utopia);
        locations
    }

    /// The name of the location, as an owned string.
    pub fn to_string(&self) -> (name: String)
        ensures
            name@ == location_name(*self),
            *self == Location::Bunker ==> name@ == "Bunker"@,
            *self == Location::Utopia ==> name@ == "Utopia"@,
    {
        self.name().to_owned()
    }

    /// The locations to store when the table of locations is seeded: all of
    /// them when the table holds `existing` rows and `existing` is 0, none
    /// otherwise.
    pub fn init_db(existing: i64) -> (locations: Vec<Location>)
        ensures
            locations@ == seeded_locations(existing as int),
            existing == 0 ==> locations@ == seq![Location::Bunker, Location::Utopia],
            existing != 0 ==> locations@.len() == 0,
    {
        if existing == 0 {
            Location::all()
        } else {
            Vec::new()
        }
    }

    /// The name of the location, as it is stored in the database.
    pub fn name(&self) -> (name: &'static str)
        ensures
            name@ == location_name(*self),
            *self == Location::Bunker ==> name@ == "Bunker"@,
            *self == Location::Utopia ==> name@ == "Utopia"@,
    {
        match self {
            Location::Bunker => "Bunker",
            Location::Utopia => "Utopia",
        }
    }
}

/// Seeding happens once: after the seeded locations have been stored, seeding
/// again stores nothing.
pub proof fn seeding_is_idempotent(existing: int)
    requires
        existing >= 0,
    ensures
        seeded_locations(existing + seeded_locations(existing).len()).len() == 0,
{
}

/// The longest name a location may have (`MaxStr<255>` in the database).
pub const MAX_NAME_LEN: usize = 255;

/// Every location occurs exactly once in `all_locations`, in declaration
/// order: Bunker, then Utopia.
pub proof fn every_location_listed_once(location: Location)
    ensures
        all_locations().contains(location),
        all_locations().no_duplicates(),
        all_locations().len() == 2,
        all_locations()[0] == Location::Bunker,
        all_locations()[1] == Location::Utopia,
{
    let all = all_locations();
    match location {
        Location::Bunker => assert(all[0] == location),
        Location::Utopia => assert(all[1] == location),
    }
}

/// Distinct locations have distinct names, and every name is non-empty and
/// fits the database column.
pub proof fn location_names_distinct(a: Location, b: Location)
    ensures
        a != b ==> location_name(a) != location_name(b),
        0 < location_name(a).len() <= MAX_NAME_LEN,
{
    reveal_strlit("Bunker");
    reveal_strlit("Utopia");
    if a != b {
        assert(location_name(a)[0] != location_name(b)[0]);
    }
}

} // verus!
