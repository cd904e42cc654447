//! What the panes of the site decide.

pub mod action;
pub mod edit_quest;
pub mod map;
pub mod map_location;
pub mod map_new_quest;
pub mod settings;
pub mod todo;
