//! Loads a GTFS-JP transit feed into an embedded SQL store and derives
//! tables that GTFS itself does not contain: service routes (equivalence
//! classes of trips that share a service pattern), the assignment of each
//! trip to its service route, and nodes (deduplicated top-level stops).
//!
//! The derivation engine is pure: it consumes plain in-memory rows and
//! produces the rows to insert, so every rule it applies is stated in a
//! contract and proved. Reading the feed's CSV files and talking to the
//! actual database happen outside, behind the [`gtfs::Gtfs`] sink trait.

pub mod agency;
pub mod create;
pub mod derive;
pub mod gtfs;
pub mod laws;
pub mod nodes;
pub mod order;
pub mod service_routes;
pub mod types;
