//! The arguments of each command and their validation.

pub mod add;
pub mod clean;
pub mod dupes;
pub mod error;
pub mod filter;
pub mod sync;
