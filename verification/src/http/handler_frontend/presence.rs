use vstd::prelude::*;
use crate::models::location::Location;

verus! {

/// The query of a request for the occupancy of a room: its current state
/// and its weekly history since `since` (Unix nanoseconds).
#[derive(Clone, Copy, Debug, PartialEq, Eq, Structural)]
pub struct GetDataQuery {
    pub loc: Location,
    pub since: i128,
}

} // verus!
