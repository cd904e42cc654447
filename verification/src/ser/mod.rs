//! The forms in which a journal is stored and exchanged.

pub mod csv;
pub mod csv_export;
pub mod csv_io;
pub mod exchange_laws;
pub mod game_data_1;
pub mod game_data_3;
pub mod round_trip;
pub mod settings;
