//! Options of the command that creates the database from a feed
//! directory, and the one rule that relates them.

use vstd::prelude::*;

use crate::service_routes::IdentifyStrategy;

verus! {

/// Options of the database-creation command.
#[derive(Debug, Clone)]
pub struct Opts {
    /// Directory the GTFS files are read from.
    pub gtfs_dir: String,
    /// Path of the database file to create.
    pub database: String,
    /// Whether the older definition of translations is used.
    pub legacy_translations: bool,
    /// How trips are grouped into service routes.
    pub service_route_identify_strategy: IdentifyStrategy,
    /// Path of the identity table, when one is supplied.
    pub service_route_identify: Option<String>,
}

impl Opts {
    /// The identity file is required exactly when the strategy resolves
    /// patterns through the identity table; under any other strategy it
    /// is ignored.
    pub fn validate(&self) -> (r: bool)
        ensures
            r == (self.service_route_identify_strategy is IdentityTable
                ==> self.service_route_identify is Some),
    {
        match self.service_route_identify_strategy {
            IdentifyStrategy::IdentityTable => self.service_route_identify.is_some(),
            _ => true,
        }
    }
}

} // verus!
