//! Core logic of the Exodus platformer: tiles, worlds and their binary file
//! format, campaign graphs, highscores and world generators.
pub mod directions;
pub mod tiles;
pub mod text;
pub mod tilesets;
pub mod codec;
pub mod io_error;
pub mod world;
pub mod numbers;
pub mod campaign;
pub mod highscores;
pub mod worldgeneration;
pub mod config;
pub mod directories;
pub mod dialogs;
pub mod movement;
pub mod player;
pub mod scoreboard;
pub mod rules;
