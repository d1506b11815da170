//! Arguments of `sync`: mirror the source catalog into a destination.

use vstd::prelude::*;
use super::error::Error;

verus! {

pub struct Args {
    /// Directory that holds the source catalog.
    pub database_path: String,
    /// The destination directory, which holds its own catalog and the files.
    pub destination: Option<String>,
    /// Keep destination tracks that the source no longer wants.
    pub no_delete: bool,
    /// Only report what would be copied and deleted.
    pub dry_run: bool,
    /// Hard-link files instead of copying them.
    pub link: bool,
}

impl Args {
    /// A destination must be given.
    pub fn validate(&self) -> (r: Result<(), Error>)
        ensures
            r is Ok <==> self.destination is Some,
            r matches Err(e) ==> e is ValidationError,
    {
        match self.destination {
            None => Err(Error::ValidationError(String::from_str("missing destination"))),
            Some(_) => Ok(()),
        }
    }
}

} // verus!
