//! Arguments of `dupes`: report albums stored more than once.

use vstd::prelude::*;

verus! {

pub struct Args {
    /// Directory that holds the catalog.
    pub database_path: String,
}

} // verus!
