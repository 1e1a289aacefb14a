use crate::text::{push_hex_byte, push_str, spec_hex_byte, string_from_chars};
use vstd::prelude::*;

verus! {

/// What went wrong while reading bytes that this crate's formats are made of.
#[derive(Debug, Clone, Copy, PartialEq, Eq, Structural)]
pub enum IoError {
    /// The data ended before a value that was to be read.
    UnexpectedEof,
    /// Text that is not valid UTF-8.
    InvalidData,
    /// A byte that stands for no language.
    InvalidLanguage { byte: u8 },
    /// A byte that stands for no tile set.
    InvalidTileset { byte: u8 },
}

/// The message that describes an error of reading.
pub open spec fn io_message(e: IoError) -> Seq<char> {
    match e {
        IoError::UnexpectedEof => "failed to fill whole buffer"@,
        IoError::InvalidData => "stream did not contain valid UTF-8"@,
        IoError::InvalidLanguage { byte } => "Invalid Language 0x"@ + spec_hex_byte(byte),
        IoError::InvalidTileset { byte } => "Invalid Tileset 0x"@ + spec_hex_byte(byte),
    }
}

/// Append the message that describes `e`.
pub fn push_io_message(v: &mut Vec<char>, e: IoError)
    ensures
        final(v)@ == old(v)@ + io_message(e),
{
    match e {
        IoError::UnexpectedEof => push_str(v, "failed to fill whole buffer"),
        IoError::InvalidData => push_str(v, "stream did not contain valid UTF-8"),
        IoError::InvalidLanguage { byte } => {
            push_str(v, "Invalid Language 0x");
            push_hex_byte(v, byte);
            assert(v@ =~= old(v)@ + io_message(e));
        },
        IoError::InvalidTileset { byte } => {
            push_str(v, "Invalid Tileset 0x");
            push_hex_byte(v, byte);
            assert(v@ =~= old(v)@ + io_message(e));
        },
    }
}

impl IoError {
    /// The message that describes the error.
    pub fn to_string(&self) -> (r: String)
        ensures
            r@ == io_message(*self),
    {
        let mut v: Vec<char> = Vec::new();
        push_io_message(&mut v, *self);
        assert(v@ =~= io_message(*self));
        string_from_chars(&v)
    }
}

} // verus!
