//! A two-player pursuit game on a square grid.
//!
//! The runner tries to reach the edge of the board; the blocker places
//! obstacles, one per round, to trap it. This crate holds the rules of one
//! match, the text protocol of its server and the bookkeeping of its
//! connections. Every function has a contract, and the contracts are
//! proved. The exception is what is said of the random number generators:
//! that is believed, and marked as such where it stands, in [`random`] and
//! [`solo`].
//!
//! - [`geometry`]: cells, bounds, the edge, and reach.
//! - [`reach`]: where the runner may go on a board with obstacles.
//! - [`state`]: one match, and what each command makes of it.
//! - [`cpu`]: the simulated runner.
//! - [`protocol`]: requests as bytes on the wire.
//! - [`handler`]: one request, from bytes to answer.
//! - [`session`]: who may join, and as what.
//! - [`laws`]: what holds of every match.
//! - [`client`]: the player's side: which cells to offer, how to write a
//!   move.
//! - [`reconnect`]: when a player connects, sends, and gives up.
//! - [`solo`]: the game for two players at one screen.
//! - [`random`]: the source of chance.

pub mod geometry;
pub mod reach;
pub mod random;
pub mod state;
pub mod cpu;
pub mod protocol;
pub mod session;
pub mod handler;
pub mod laws;
pub mod client;
pub mod reconnect;
pub mod solo;
