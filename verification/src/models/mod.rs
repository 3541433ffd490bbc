pub mod location;
pub mod presence;
