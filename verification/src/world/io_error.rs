use crate::codec::bincode_error_message;
use crate::io_error::{io_message, push_io_message, IoError};
use crate::numbers::{push_decimal, spec_decimal};
use crate::text::{
    push_hex_list, push_lower_hex_byte, push_str, spec_hex_list, spec_lower_hex_byte, string_from_chars,
};
use vstd::prelude::*;

verus! {

/// An error that might be thrown in a Game World Parser
#[derive(Debug)]
pub enum GameWorldParseError {
    InvalidMagicBytes { expected: [u8; 9], actual: [u8; 9] },
    NotImplemented,
    InvalidVersion { invalid_version: u8 },
    IOError { io_error: IoError },
    BincodeError { bincode_error: Box<bincode::ErrorKind> },
    InvalidMapWidth { max_width: usize, actual_width: usize },
    InvalidMapHeight { max_height: usize, actual_height: usize },
    UnexpectedEndOfTileData { position: usize, io_error: IoError },
    InvalidTile { tile_bytes: u8 },
    HashMismatch { expected: [u8; 32], actual: [u8; 32] },
}

impl GameWorldParseError {
    /// The number that identifies each kind of error.
    pub open spec fn spec_numeric_error(&self) -> u8 {
        match self {
            GameWorldParseError::InvalidMagicBytes { .. } => 0,
            GameWorldParseError::NotImplemented => 1,
            GameWorldParseError::InvalidVersion { .. } => 2,
            GameWorldParseError::IOError { .. } => 3,
            GameWorldParseError::BincodeError { .. } => 4,
            GameWorldParseError::InvalidMapWidth { .. } => 5,
            GameWorldParseError::InvalidMapHeight { .. } => 6,
            GameWorldParseError::UnexpectedEndOfTileData { .. } => 7,
            GameWorldParseError::InvalidTile { .. } => 8,
            GameWorldParseError::HashMismatch { .. } => 9,
        }
    }

    /// Get the numeric error to compare the error kind. Discards all data that is carried by this error
    pub fn numeric_error(&self) -> (r: u8)
        ensures
            r == self.spec_numeric_error(),
    {
        match self {
            GameWorldParseError::InvalidMagicBytes { .. } => 0,
            GameWorldParseError::NotImplemented => 1,
            GameWorldParseError::InvalidVersion { .. } => 2,
            GameWorldParseError::IOError { .. } => 3,
            GameWorldParseError::BincodeError { .. } => 4,
            GameWorldParseError::InvalidMapWidth { .. } => 5,
            GameWorldParseError::InvalidMapHeight { .. } => 6,
            GameWorldParseError::UnexpectedEndOfTileData { .. } => 7,
            GameWorldParseError::InvalidTile { .. } => 8,
            GameWorldParseError::HashMismatch { .. } => 9,
        }
    }
}

/// The message that describes a map file error; `None` for an error of bincode, whose
/// message is bincode's own.
pub open spec fn world_error_message(e: GameWorldParseError) -> Option<Seq<char>> {
    match e {
        GameWorldParseError::InvalidMagicBytes { expected, actual } => Some(
            "Invalid Magic Bytes in Map File! Expected: "@ + spec_hex_list(expected@) + " Got: "@
                + spec_hex_list(actual@),
        ),
        GameWorldParseError::NotImplemented => Some("Not Implemented"@),
        GameWorldParseError::InvalidVersion { invalid_version } => Some(
            "Invalid Map Version: 0x"@ + spec_lower_hex_byte(invalid_version),
        ),
        GameWorldParseError::IOError { io_error } => Some(io_message(io_error)),
        GameWorldParseError::BincodeError { .. } => None,
        GameWorldParseError::InvalidMapWidth { max_width, actual_width } => Some(
            "Invalid Map Width: "@ + spec_decimal(actual_width as nat) + " (Max allowed width: "@
                + spec_decimal(max_width as nat) + ")"@,
        ),
        GameWorldParseError::InvalidMapHeight { max_height, actual_height } => Some(
            "Invalid Map Height: "@ + spec_decimal(actual_height as nat) + " (Max allowed height: "@
                + spec_decimal(max_height as nat) + ")"@,
        ),
        GameWorldParseError::UnexpectedEndOfTileData { position, io_error } => Some(
            "Unexpected end of Tile Data at position "@ + spec_decimal(position as nat) + "! "@
                + io_message(io_error),
        ),
        GameWorldParseError::InvalidTile { tile_bytes } => Some(
            "Tile Byte not recognized as valid tile: 0x"@ + spec_lower_hex_byte(tile_bytes),
        ),
        GameWorldParseError::HashMismatch { expected, actual } => Some(
            "Hash Mismatch - your map file might be corrupted!\nExpected: "@ + spec_hex_list(expected@)
                + "\nActual: "@ + spec_hex_list(actual@),
        ),
    }
}

impl GameWorldParseError {
    /// The message that describes the error.
    pub fn to_string(&self) -> (r: String)
        ensures
            world_error_message(*self) matches Some(m) ==> r@ == m,
    {
        let mut v: Vec<char> = Vec::new();
        match self {
            GameWorldParseError::InvalidMagicBytes { expected, actual } => {
                push_str(&mut v, "Invalid Magic Bytes in Map File! Expected: ");
                push_hex_list(&mut v, expected);
                push_str(&mut v, " Got: ");
                push_hex_list(&mut v, actual);
            },
            GameWorldParseError::NotImplemented => {
                push_str(&mut v, "Not Implemented");
            },
            GameWorldParseError::InvalidVersion { invalid_version } => {
                push_str(&mut v, "Invalid Map Version: 0x");
                push_lower_hex_byte(&mut v, *invalid_version);
            },
            GameWorldParseError::IOError { io_error } => {
                push_io_message(&mut v, *io_error);
            },
            GameWorldParseError::BincodeError { bincode_error } => {
                return bincode_error_message(bincode_error);
            },
            GameWorldParseError::InvalidMapWidth { max_width, actual_width } => {
                push_str(&mut v, "Invalid Map Width: ");
                push_decimal(&mut v, *actual_width as u64);
                push_str(&mut v, " (Max allowed width: ");
                push_decimal(&mut v, *max_width as u64);
                push_str(&mut v, ")");
            },
            GameWorldParseError::InvalidMapHeight { max_height, actual_height } => {
                push_str(&mut v, "Invalid Map Height: ");
                push_decimal(&mut v, *actual_height as u64);
                push_str(&mut v, " (Max allowed height: ");
                push_decimal(&mut v, *max_height as u64);
                push_str(&mut v, ")");
            },
            GameWorldParseError::UnexpectedEndOfTileData { position, io_error } => {
                push_str(&mut v, "Unexpected end of Tile Data at position ");
                push_decimal(&mut v, *position as u64);
                push_str(&mut v, "! ");
                push_io_message(&mut v, *io_error);
            },
            GameWorldParseError::InvalidTile { tile_bytes } => {
                push_str(&mut v, "Tile Byte not recognized as valid tile: 0x");
                push_lower_hex_byte(&mut v, *tile_bytes);
            },
            GameWorldParseError::HashMismatch { expected, actual } => {
                push_str(&mut v, "Hash Mismatch - your map file might be corrupted!\nExpected: ");
                push_hex_list(&mut v, expected);
                push_str(&mut v, "\nActual: ");
                push_hex_list(&mut v, actual);
            },
        }
        assert(world_error_message(*self) matches Some(m) && v@ =~= m);
        string_from_chars(&v)
    }
}

} // verus!
