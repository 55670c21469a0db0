//! MultiHangman: the game rules, the server's game registry, the client's
//! local game state and the user-interface state machines of a networked
//! hangman game, with their contracts.

pub mod text;
pub mod categories;
pub mod textbox;
pub mod structs;
pub mod db;
pub mod server;
pub mod client;
pub mod game;
pub mod scenes;
pub mod connect;
pub mod cli;
