//! The core of a session server for a multiplayer resource-economy game: the authoritative
//! game state with its registry of players, the fan-out of game events to the players'
//! mailboxes, the phase and epoch counters with the loop that drives them, the setup of
//! deck and market, and the token check that guards access.
//!
//! Every module states its behaviour over a mathematical model of its data, and its
//! functions are verified against that statement. The one exception is the module
//! `shuffle`: what it says of the two calls into the `rand` crate is assumed, not proved.

pub mod auth;
pub mod config;
pub mod connection;
pub mod dtos;
pub mod enums;
pub mod game;
pub mod mailbox;
pub mod player;
mod shuffle;
pub mod state;
pub mod tables;
pub mod text;

pub use crate::enums::NoSuchFound;
pub use crate::player::Player;
pub use crate::state::GameState;
