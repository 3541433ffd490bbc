//! Occupancy tracking for a set of rooms: which rooms exist, the current
//! head count of a room, a week's worth of hourly history and the synthetic
//! readings used to seed an empty database.

pub mod cli;
pub mod http;
pub mod local_time;
pub mod models;
pub mod modules;
