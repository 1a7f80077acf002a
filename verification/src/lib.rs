//! The authoritative, turn-based betting table of a multiplayer card game,
//! and the messages that keep every participant's copy of it in step.
//!
//! * `card`, `deck`, `player`: what lies on the table and who sits at it.
//! * `action`, `rules`, `lobby`: what a player may ask, what the table
//!   answers, and the table itself; `laws` holds what is proved of every
//!   table.
//! * `wire`, `message`, `round_trip`: messages as bytes and back.
//! * `notation`: actions as short texts.
//! * `session`, `client`, `server`, `protocol`: the steps that a joining
//!   and a hosting participant take, and why their tables stay alike.

pub mod action;
pub mod card;
pub mod client;
pub mod deck;
pub mod laws;
pub mod lobby;
pub mod message;
pub mod notation;
pub mod player;
pub mod protocol;
pub mod round_trip;
pub mod rules;
pub mod server;
pub mod session;
pub mod sums;
pub mod wire;
