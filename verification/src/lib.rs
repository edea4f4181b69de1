//! Verified core of a desktop music library and player.

pub mod audio;
pub mod digest;
pub mod library;
pub mod listener;
pub mod model;
pub mod order;
pub mod player;
pub mod scan;
pub mod store;
pub mod tags;
pub mod text;
pub mod ui;
