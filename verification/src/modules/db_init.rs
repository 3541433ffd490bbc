use vstd::prelude::*;

verus! {

/// The start-up step that seeds the table of locations
/// (see `Location::init_db` for what it stores).
pub struct DbInit;

} // verus!
