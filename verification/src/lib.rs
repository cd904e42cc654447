//! Companion journal for a cooperative board game: quest progress, location
//! notes, the rules that decide which encounters are open, and the formats in
//! which a journal is stored and exchanged.

pub mod data;
pub mod game;
pub mod global;
pub mod id_map;
pub mod pane;
pub mod route;
pub mod ser;
pub mod text;
pub mod url;
