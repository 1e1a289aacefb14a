use crate::codec::bincode_error_message;
use crate::io_error::{io_message, push_io_message, IoError};
use crate::numbers::{push_decimal, spec_decimal};
use crate::text::{
    push_hex_list, push_lower_hex_byte, push_str, spec_hex_list, spec_lower_hex_byte, string_from_chars,
};
use vstd::prelude::*;

verus! {

/// An error that might be thrown in a Highscores Parser
#[derive(Debug)]
pub enum HighscoreParseError {
    InvalidMagicBytes { expected: [u8; 18], actual: [u8; 18] },
    NotImplemented,
    InvalidVersion { invalid_version: u8 },
    IOError { io_error: IoError },
    BincodeError { bincode_error: Box<bincode::ErrorKind> },
    UnexpectedEndOfData { position: usize, io_error: IoError },
    DuplicateHighscoreEntry,
    DuplicateDatabaseEntry,
    DuplicatePlayerEntry,
    HashMismatch { expected: [u8; 32], actual: [u8; 32] },
}

impl HighscoreParseError {
    /// The number that identifies each kind of error.
    pub open spec fn spec_numeric_error(&self) -> u8 {
        match self {
            HighscoreParseError::InvalidMagicBytes { .. } => 0,
            HighscoreParseError::NotImplemented => 1,
            HighscoreParseError::InvalidVersion { .. } => 2,
            HighscoreParseError::IOError { .. } => 3,
            HighscoreParseError::BincodeError { .. } => 4,
            HighscoreParseError::UnexpectedEndOfData { .. } => 7,
            HighscoreParseError::DuplicateHighscoreEntry => 8,
            HighscoreParseError::DuplicateDatabaseEntry => 9,
            HighscoreParseError::DuplicatePlayerEntry => 10,
            HighscoreParseError::HashMismatch { .. } => 11,
        }
    }

    /// Get the numeric error to compare the error kind. Discards all data that is carried by this error
    pub fn numeric_error(&self) -> (r: u8)
        ensures
            r == self.spec_numeric_error(),
    {
        match self {
            HighscoreParseError::InvalidMagicBytes { .. } => 0,
            HighscoreParseError::NotImplemented => 1,
            HighscoreParseError::InvalidVersion { .. } => 2,
            HighscoreParseError::IOError { .. } => 3,
            HighscoreParseError::BincodeError { .. } => 4,
            HighscoreParseError::UnexpectedEndOfData { .. } => 7,
            HighscoreParseError::DuplicateHighscoreEntry => 8,
            HighscoreParseError::DuplicateDatabaseEntry => 9,
            HighscoreParseError::DuplicatePlayerEntry => 10,
            HighscoreParseError::HashMismatch { .. } => 11,
        }
    }
}

/// What went wrong while reading highscore data, as plain values.
pub enum ReadError {
    /// The data ended where fixed bytes were to be read.
    Eof,
    /// A version byte that no format has.
    Version { byte: u8 },
    /// bincode could not read a number or a string.
    Bincode,
    /// Two results of a player are the same in score and time.
    DuplicateHighscore,
    /// Two players of a map have the same name.
    DuplicatePlayer,
    /// Two maps of a database have the same hash.
    DuplicateDatabase,
    /// The data does not start with the magic bytes.
    Magic { actual: Seq<u8> },
    /// A map's records carry another hash than the one they are stored under.
    HashMismatch { expected: Seq<u8>, actual: Seq<u8> },
}

/// The magic bytes of a highscores database: "ExodusHighscoreDB" and a line feed.
pub open spec fn spec_db_magic() -> Seq<u8> {
    seq![
        0x45u8, 0x78u8, 0x6fu8, 0x64u8, 0x75u8, 0x73u8, 0x48u8, 0x69u8, 0x67u8, 0x68u8, 0x73u8, 0x63u8,
        0x6fu8, 0x72u8, 0x65u8, 0x44u8, 0x42u8, 0x0au8,
    ]
}

/// Whether the error `e` is the one that `r` describes.
pub open spec fn error_is(e: HighscoreParseError, r: ReadError) -> bool {
    match r {
        ReadError::Eof => e matches HighscoreParseError::IOError { io_error } && io_error == IoError::UnexpectedEof,
        ReadError::Version { byte } => e matches HighscoreParseError::InvalidVersion { invalid_version } && invalid_version
            == byte,
        ReadError::Bincode => e is BincodeError,
        ReadError::DuplicateHighscore => e is DuplicateHighscoreEntry,
        ReadError::DuplicatePlayer => e is DuplicatePlayerEntry,
        ReadError::DuplicateDatabase => e is DuplicateDatabaseEntry,
        ReadError::Magic { actual } => e matches HighscoreParseError::InvalidMagicBytes { expected, actual: a }
            && expected@ == spec_db_magic() && a@ == actual,
        ReadError::HashMismatch { expected, actual } => e matches HighscoreParseError::HashMismatch {
            expected: x,
            actual: y,
        } && x@ == expected && y@ == actual,
    }
}

/// The message that describes a highscores error; `None` for an error of bincode, whose
/// message is bincode's own.
pub open spec fn highscore_error_message(e: HighscoreParseError) -> Option<Seq<char>> {
    match e {
        HighscoreParseError::InvalidMagicBytes { expected, actual } => Some(
            "Invalid Magic Bytes in Map File! Expected: "@ + spec_hex_list(expected@) + " Got: "@
                + spec_hex_list(actual@),
        ),
        HighscoreParseError::NotImplemented => Some("Not Implemented"@),
        HighscoreParseError::InvalidVersion { invalid_version } => Some(
            "Invalid Map Version: 0x"@ + spec_lower_hex_byte(invalid_version),
        ),
        HighscoreParseError::IOError { io_error } => Some(io_message(io_error)),
        HighscoreParseError::BincodeError { .. } => None,
        HighscoreParseError::UnexpectedEndOfData { position, io_error } => Some(
            "Unexpected end of Tile Data at position "@ + spec_decimal(position as nat) + "! "@
                + io_message(io_error),
        ),
        HighscoreParseError::DuplicateHighscoreEntry => Some("Unexpected duplicate highscore entry found!"@),
        HighscoreParseError::DuplicateDatabaseEntry => Some(
            "Unexpected duplicate entry found in database file!"@,
        ),
        HighscoreParseError::DuplicatePlayerEntry => Some(
            "Unexpected duplicate player entry found in highscore database file!"@,
        ),
        HighscoreParseError::HashMismatch { expected, actual } => Some(
            "Invalid Map Hash in Map File! Expected: "@ + spec_hex_list(expected@) + " Got: "@
                + spec_hex_list(actual@),
        ),
    }
}

impl HighscoreParseError {
    /// The message that describes the error.
    pub fn to_string(&self) -> (r: String)
        ensures
            highscore_error_message(*self) matches Some(m) ==> r@ == m,
    {
        let mut v: Vec<char> = Vec::new();
        match self {
            HighscoreParseError::InvalidMagicBytes { expected, actual } => {
                push_str(&mut v, "Invalid Magic Bytes in Map File! Expected: ");
                push_hex_list(&mut v, expected);
                push_str(&mut v, " Got: ");
                push_hex_list(&mut v, actual);
            },
            HighscoreParseError::NotImplemented => {
                push_str(&mut v, "Not Implemented");
            },
            HighscoreParseError::InvalidVersion { invalid_version } => {
                push_str(&mut v, "Invalid Map Version: 0x");
                push_lower_hex_byte(&mut v, *invalid_version);
            },
            HighscoreParseError::IOError { io_error } => {
                push_io_message(&mut v, *io_error);
            },
            HighscoreParseError::BincodeError { bincode_error } => {
                return bincode_error_message(bincode_error);
            },
            HighscoreParseError::UnexpectedEndOfData { position, io_error } => {
                push_str(&mut v, "Unexpected end of Tile Data at position ");
                push_decimal(&mut v, *position as u64);
                push_str(&mut v, "! ");
                push_io_message(&mut v, *io_error);
            },
            HighscoreParseError::DuplicateHighscoreEntry => {
                push_str(&mut v, "Unexpected duplicate highscore entry found!");
            },
            HighscoreParseError::DuplicateDatabaseEntry => {
                push_str(&mut v, "Unexpected duplicate entry found in database file!");
            },
            HighscoreParseError::DuplicatePlayerEntry => {
                push_str(&mut v, "Unexpected duplicate player entry found in highscore database file!");
            },
            HighscoreParseError::HashMismatch { expected, actual } => {
                push_str(&mut v, "Invalid Map Hash in Map File! Expected: ");
                push_hex_list(&mut v, expected);
                push_str(&mut v, " Got: ");
                push_hex_list(&mut v, actual);
            },
        }
        assert(highscore_error_message(*self) matches Some(m) && v@ =~= m);
        string_from_chars(&v)
    }
}

} // verus!
