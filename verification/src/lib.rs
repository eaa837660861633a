//! Game logic of a small multiplayer maze shooter: the server's lobby and
//! relay decisions, the shared game state, and the client's bookkeeping of
//! players, lives and movement input.
//!
//! Coordinates and rotations travel through the library as the IEEE-754 bit
//! patterns of their `f32` components; the library never does arithmetic on
//! them, it only stores, copies and forwards them.

pub mod game_state;
pub mod seq_facts;
pub mod server;
pub mod text;
pub mod types;
pub mod client;
pub mod local_state;
pub mod labyrinth;
pub mod connection;
