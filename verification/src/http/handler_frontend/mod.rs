pub mod current_presence;
pub mod presence;
