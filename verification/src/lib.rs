pub mod cave;
pub mod dungeon;
pub mod game;
pub mod locations;
pub mod options;
pub mod patch;
pub mod rom_ext;
pub mod server;
pub mod text;
pub mod ui;
