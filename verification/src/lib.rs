//! The decisions of a pearl stasis bot: which messages are commands and what
//! each of them does, which trapdoor belongs to whom, when to pull it, what to
//! eat and when to log out. Everything here works on plain values; the game
//! connection is somebody else's business.

pub mod action;
pub mod chat;
pub mod commands;
pub mod conduct_laws;
pub mod dm;
pub mod events;
pub mod health;
pub mod laws;
pub mod opts;
pub mod pearl;
pub mod state;
pub mod swarm;
pub mod text;
pub mod text_laws;
pub mod tick;
pub mod trapdoors;
