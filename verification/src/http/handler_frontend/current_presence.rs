use vstd::prelude::*;
use crate::models::location::Location;

verus! {

/// The query of a request for the current occupancy of a room.
#[derive(Clone, Copy, Debug, PartialEq, Eq, Structural)]
pub struct LocationQuery {
    pub loc: Location,
}

} // verus!
