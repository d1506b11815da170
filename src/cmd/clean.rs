//! Arguments of `clean`: remove what interrupted transfers left in a destination.

use vstd::prelude::*;
use super::error::Error;

verus! {

pub struct Args {
    /// The destination directory.
    pub destination: Option<String>,
}

impl Args {
    /// A destination must be given.
    pub fn validate(&self) -> (r: Result<(), Error>)
        ensures
            r is Ok <==> self.destination is Some,
            r matches Err(e) ==> e is ValidationError,
    {
        match self.destination {
            None => Err(Error::ValidationError(String::from_str("missing destination"))),
            Some(_) => Ok(()),
        }
    }
}

} // verus!
