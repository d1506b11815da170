//! The commands of the program and their arguments.

use vstd::prelude::*;
use crate::cmd;

verus! {

pub struct Cli {
    pub command: Commands,
}

pub enum Commands {
    /// Syncs source and destination.
    Sync(cmd::sync::Args),
    /// Adds a directory's content to a catalog.
    Add(cmd::add::Args),
    /// Finds albums stored in more than one format.
    Dupes(cmd::dupes::Args),
    /// Rescans the directories a catalog already records.
    Update(cmd::add::Args),
    /// Removes what interrupted transfers left in a destination.
    Clean(cmd::clean::Args),
    /// Reads or replaces the filter of a catalog.
    Filter(cmd::filter::Args),
}

} // verus!
