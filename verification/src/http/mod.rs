//! The parts of the HTTP interface that carry no transport.
use vstd::prelude::*;

pub mod handler_frontend;

verus! {

/// The API page used by the frontend.
pub struct FrontendApi;

/// The API page used by the sensors.
pub struct SensorApi;

} // verus!
