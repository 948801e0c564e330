//! Key remapping: the names of keys and buttons, the table that maps a trigger
//! to the steps it replays, and the commands that one poll of the devices
//! calls for.

pub mod config;
pub mod engine;
pub mod error;
pub mod keycodes;
pub mod keys;
pub mod symbols;
pub mod table;
pub mod text;

