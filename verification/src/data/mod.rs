//! The records of a journal.

pub mod encounter_map;
pub mod encounter_type;
pub mod nav;
pub mod quest;
pub mod quest_location;
pub mod quest_view;
pub mod sub_component;
pub mod vis;
