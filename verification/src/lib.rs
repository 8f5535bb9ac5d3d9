//! A verified core for a layered-image export watcher.
//!
//! The crate models the engine of a tool that watches a filesystem
//! location for changes to layered-image documents and converts each
//! changed document to a raster format.  The verified parts are the
//! path classifier, the per-path debounce ledger, the dispatch
//! decisions, the conversion pipeline downstream of the outside
//! decoder, and the batch planner; reading the notification stream,
//! the fault-guarded decoder call itself, and the disk writes are
//! left to a thin unverified shell.

pub mod batch;
pub mod classify;
pub mod convert;
pub mod dispatch;
pub mod format;
pub mod framing;
pub mod ledger;
pub mod paths;
