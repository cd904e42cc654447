//! The journal as a whole.

pub mod app;
pub mod data;
