//! Locating, snapshotting, restoring and pruning per-title save data.
//!
//! Save locations are written as templates (`%APPDATA%/Studio/<slot>`) that `resolver`
//! turns into concrete directories. `backup` plans the copies of a snapshot and judges
//! their outcome, `retention` bounds the number of snapshots kept, `archive` packs a
//! snapshot tree, and `watcher` decides when changes call for a new snapshot. The
//! file-system work itself is left to the caller, which reports back what happened.

pub mod text;
pub mod ordering;

pub mod resolver;
pub mod resolution_laws;
pub mod host;
pub mod catalog;

pub mod models;
pub mod layout;
pub mod backup;
pub mod retention;
pub mod listing;
pub mod archive;
pub mod watcher;
