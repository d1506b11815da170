//! Errors that the library's own logic reports.

use vstd::prelude::*;

verus! {

#[derive(Debug, Clone)]
pub enum Error {
    /// A required parameter is missing; fatal before any catalog is touched.
    ValidationError(String),
    /// A filter script failed to compile, to run or to define `filter`.
    FilterError(crate::filter::Error),
    /// A retraction removed the row of a track but not its file, left at
    /// this path.
    OrphanedFile(String),
    /// The store was created with the other role; whether it is a
    /// destination.
    RoleMismatch(bool),
}

impl From<crate::filter::Error> for Error {
    fn from(value: crate::filter::Error) -> (r: Error) {
        Error::FilterError(value)
    }
}

impl vstd::std_specs::convert::FromSpecImpl<crate::filter::Error> for Error {
    open spec fn obeys_from_spec() -> bool {
        true
    }

    open spec fn from_spec(v: crate::filter::Error) -> Error {
        Error::FilterError(v)
    }
}

impl Error {
    /// The text that describes the error.
    pub fn message(&self) -> (r: String)
        ensures
            self matches Error::ValidationError(m) ==> r@ == "validation error: "@ + m@,
            self matches Error::FilterError(f) ==> r@ == "filtering error: "@ + f.spec_message(),
            self matches Error::OrphanedFile(p) ==> r@ == "cannot delete file "@ + p@,
            self matches Error::RoleMismatch(true) ==> r@ == "the catalog is a destination one"@,
            self matches Error::RoleMismatch(false) ==> r@ == "the catalog is not a destination one"@,
    {
        match self {
            Error::ValidationError(m) => {
                let mut r = String::from_str("validation error: ");
                crate::text::push_all(&mut r, m.as_str());
                r
            },
            Error::FilterError(f) => {
                let mut r = String::from_str("filtering error: ");
                let fm = f.message();
                crate::text::push_all(&mut r, fm.as_str());
                r
            },
            Error::OrphanedFile(p) => {
                let mut r = String::from_str("cannot delete file ");
                crate::text::push_all(&mut r, p.as_str());
                r
            },
            Error::RoleMismatch(true) => String::from_str("the catalog is a destination one"),
            Error::RoleMismatch(false) => String::from_str("the catalog is not a destination one"),
        }
    }
}

} // verus!
