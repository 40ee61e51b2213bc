//! Verified core of a music player that speaks the MPD protocol.
pub mod background;
pub mod client;
pub mod common;
pub mod decimals;
pub mod library;
pub mod order;
pub mod phrases;
pub mod player;
pub mod preferences;
pub mod text;
pub mod utils;
pub mod window;
