pub mod bytes;
pub mod client;
pub mod collision;
pub mod config;
pub mod editor;
pub mod math;
pub mod net;
pub mod persistence;
pub mod physics;
pub mod player_data;
pub mod protocol;
pub mod server;
pub mod state;
