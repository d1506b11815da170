//! Reconciliation of two catalogs of media files: track identity, the
//! copy/delete diff between a source and a destination catalog, the
//! crash-recoverable two-phase copy pipeline and duplicate-album detection.

pub mod text;
pub mod model;
pub mod catalog;
pub mod reconcile;
pub mod pipeline;
pub mod scan;
pub mod dupes;
pub mod filter;
pub mod cmd;
pub mod cli;
