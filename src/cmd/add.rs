//! Arguments of `add` and `update`: scan directories into a catalog.

use vstd::prelude::*;
use super::error::Error;

verus! {

pub struct Args {
    /// Directory that holds the catalog.
    pub database_path: String,
    /// Directories to scan for music files; `update` rescans the recorded ones.
    pub sources: Option<Vec<String>>,
    /// Whether the catalog is a destination one.
    pub is_destination: bool,
}

impl Args {
    /// At least one source must be given.
    pub fn validate(&self) -> (r: Result<(), Error>)
        ensures
            r is Ok <==> self.sources is Some,
            r matches Err(e) ==> e is ValidationError,
    {
        match self.sources {
            None => Err(Error::ValidationError(String::from_str("missing source(s)"))),
            Some(_) => Ok(()),
        }
    }
}

} // verus!
