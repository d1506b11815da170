//! Arguments of `filter`: read or replace the filter script of a catalog.

use vstd::prelude::*;
use super::error::Error;

verus! {

pub struct Args {
    /// The destination directory.
    pub destination: Option<String>,
    /// Print the stored filter instead of editing it.
    pub read: bool,
    /// Read the filter script from this file instead of an editor.
    pub file: Option<String>,
}

impl Args {
    /// A destination must be given.
    pub fn validate(&self) -> (r: Result<(), Error>)
        ensures
            r is Ok <==> self.destination is Some,
            r matches Err(e) ==> e is ValidationError,
    {
        match self.destination {
            None => Err(Error::ValidationError(String::from_str("missing destination"))),
            Some(_) => Ok(()),
        }
    }
}

} // verus!
