//! The command line of the server.
use vstd::prelude::*;

verus! {

/// The command line: one subcommand.
#[derive(Clone, Debug, PartialEq, Eq)]
pub struct Cli {
    /// The subcommand to run.
    pub command: Command,
}

/// The subcommands.
#[derive(Clone, Debug, PartialEq, Eq)]
pub enum Command {
    /// Start the server.
    Start,
    /// Run the migrations on the database.
    Migrate,
    /// Create new migrations.
    MakeMigrations {
        /// Target directory for the migrations.
        migration_dir: String,
    },
}

} // verus!
