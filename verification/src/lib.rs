//! Verified core of a terminal typing game with a small multiplayer protocol.

pub mod color;
pub mod text;
pub mod word;
pub mod wordlist;
pub mod config;
pub mod app;
pub mod wire;
pub mod message;
pub mod server;
pub mod server_message;
pub mod protocol;
pub mod input;
pub mod events;
pub mod parser;
pub mod cli;
pub mod generator;
pub mod screen;
