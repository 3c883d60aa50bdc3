//! The settings that a client is started with.

use vstd::prelude::*;

verus! {

/// Settings of one client, as plain values.
#[derive(Debug)]
pub struct Args {
    /// The team name under which the client registers at the server
    pub team_name: String,
    /// The four parts of the server's address
    pub ip: [u8; 4],
    /// The port of the server
    pub port: u16,
    /// Whether the player's ants are printed each turn
    pub print_ants: bool,
    /// Amount of gatherer ants
    pub gatherer_ants: Option<u8>,
    /// Amount of offensive ants
    pub offensive_ants: Option<u8>,
    /// Amount of waste mover ants
    pub waste_mover_ants: Option<u8>,
    /// Whether help on the kinds of ants was asked for
    pub ant_help: bool,
    /// The most health an enemy ant can have and still be attacked
    pub max_health: u8,
    /// Whether the default split of jobs is used
    pub default_jobs: bool,
    /// Whether each ant gets a job by chance
    pub random_jobs: bool,
    /// Whether gatherers go after weakened enemy ants
    pub hunt: bool,
}

} // verus!
