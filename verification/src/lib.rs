//! Decoder and decision engine of a client for a turn-based simulation in which
//! sixteen teams of ants gather sugar on a board of tiles.
//!
//! Each turn the server sends the state of the board. [`Turn::new`] reads it from
//! its bytes, [`Ants::from_turn`] lists the sixteen ants of a team, and [`turn`]
//! decides for each ant of the client's team in which direction it moves. What
//! each function returns is stated in its contract and proved.

pub mod ai;
pub mod ants;
pub mod cli;
pub mod error;
pub mod jobs;
pub mod network;
mod order;
mod random;
pub mod utils;
pub mod world;

pub use ai::turn;
pub use ants::{Ant, Ants};
pub use cli::Args;
pub use error::AntsError;
pub use jobs::{set_ant_jobs, AntJob};
pub use network::Register;
pub use world::{AntCargo, Object, Pair, Position, Team, Turn};
