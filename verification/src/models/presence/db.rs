use vstd::prelude::*;
use crate::models::location::Location;

verus! {

/// One occupancy reading as it is stored in the database.
#[derive(Clone, Copy, Debug, PartialEq, Eq, Structural)]
pub struct PresenceData {
    /// The row's key.
    pub uuid: u128,
    /// When the reading was taken, in nanoseconds since the Unix epoch.
    pub date_time: i128,
    /// The room that was counted.
    pub location: Location,
    /// The number of people counted.
    pub count: i64,
}

} // verus!
