//! The game's catalog: its languages, locations and quests.

pub mod catalog;
pub mod game_language;
pub mod location_id;
pub mod msg;
pub mod quest_id;
pub mod quest_locale;
