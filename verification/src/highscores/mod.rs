//! Highscores: single results, the results of a player on a map, the results of all players on
//! a map, and a database of the results on all maps, each with its binary format.
pub mod highscore;
pub mod highscore_records;
pub mod highscores_database;
pub mod io_error;
pub mod player_highscores;
