//! Authoritative core of a multiplayer snake arena, stated over mathematical
//! models and proved.
//!
//! - [`geometry`]: a snake's body as a path of grid points, and what a tick
//!   does to it.
//! - [`game`]: bodies as linked chains of nodes, snakes and food.
//! - [`world`]: the shared world, its tile classifier and its tick.
//! - [`census`]: counting the snakes that are alive.
//! - [`protocol`] and [`decode`]: writing and reading the messages of the
//!   wire; [`roundtrip`]: what is written reads back.
//! - [`session`]: the rules of a player's worker on the server.
//! - [`client`]: the rules of a client.
//! - [`computer_player`]: a player that moves at random.
//! - [`chance`]: the sources of randomness, which are taken on trust.

pub mod census;
pub mod chance;
pub mod client;
pub mod computer_player;
pub mod decode;
pub mod game;
pub mod geometry;
pub mod protocol;
pub mod roundtrip;
pub mod session;
pub mod world;
