//! Rules of a catalog store that do not depend on how it is persisted.

use vstd::prelude::*;
use crate::cmd::error::Error;

verus! {

/// What opening a catalog does.
#[derive(Debug, Clone, Copy, PartialEq, Eq, Structural)]
pub enum Opening {
    /// The store is new: record its role.
    Initialize,
    /// The store exists with the requested role.
    Open,
}

/// Decides how to open a catalog whose store records `stored_role`, if it
/// records one, when the caller asks for the role `is_destination`. The
/// role of a store is fixed once recorded.
pub fn open_catalog(stored_role: Option<bool>, is_destination: bool) -> (r: Result<Opening, Error>)
    ensures
        stored_role is None ==> r == Ok::<Opening, Error>(Opening::Initialize),
        stored_role == Some(is_destination) ==> r == Ok::<Opening, Error>(Opening::Open),
        stored_role == Some(!is_destination) ==> r == Err::<Opening, Error>(Error::RoleMismatch(!is_destination)),
{
    match stored_role {
        None => Ok(Opening::Initialize),
        Some(s) => {
            if s == is_destination {
                Ok(Opening::Open)
            } else {
                Err(Error::RoleMismatch(s))
            }
        },
    }
}

} // verus!
