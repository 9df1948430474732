//! Core logic of a read-through mirror for a community video-segment
//! annotation service.
//!
//! A request is checked and planned in `routes`; the records that the store
//! returns for it are reconciled in `reconcile` under the overlap rule of
//! `overlap`, and `guarantees` states what holds of every reconciliation.
//! `reload` decides the steps of the cycle that swaps a fresh snapshot into
//! the store. `config` reads the settings, `models` and `structs` hold the
//! data, `text` the small operations on text that the others share.
//!
//! Offsets and durations of segments are whole milliseconds; points in time
//! of the reload cycle are nanoseconds since the Unix epoch.

pub mod config;
pub mod guarantees;
pub mod models;
pub mod overlap;
pub mod reconcile;
pub mod reload;
pub mod routes;
pub mod structs;
pub mod text;
