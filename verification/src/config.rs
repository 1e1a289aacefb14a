//! The game's settings and their binary format: the language byte, the tile set byte and the
//! player's name as a bincode string.
use crate::codec::{
    bincode_error_message, deserialize_string, lemma_string_round_trip, read_string_value, reads_string,
    serialize_string, string_bytes,
};
use crate::io_error::{io_message, IoError};
use crate::tilesets::Tileset;
use vstd::prelude::*;
use vstd::utf8::encode_utf8;

verus! {

pub type PlayerId = String;

/// The languages the game can be shown in.
#[derive(Debug, Eq, PartialEq, Copy, Clone, Structural, Hash)]
pub enum Language {
    ENGLISH,
    GERMAN,
}

impl Default for Language {
    fn default() -> (r: Self)
        ensures
            r == Language::ENGLISH,
    {
        Language::ENGLISH
    }
}

/// The game's settings.
pub struct Config {
    /// The configured UI language
    pub game_language: Language,
    /// The tile set to display in the UI
    pub tile_set: Tileset,
    /// The identification of the playing player
    pub player_id: PlayerId,
}

impl Default for Config {
    fn default() -> (r: Self)
        ensures
            r.game_language == Language::ENGLISH,
            r.tile_set == Tileset::TinyPlatformQuestTiles,
            r.player_id@ == Seq::<char>::empty(),
    {
        Config {
            game_language: Language::ENGLISH,
            tile_set: Tileset::TinyPlatformQuestTiles,
            player_id: String::new(),
        }
    }
}

impl Language {
    /// The byte that stands for each language.
    pub open spec fn spec_to_bytes(self) -> u8 {
        match self {
            Language::ENGLISH => 0x00,
            Language::GERMAN => 0x01,
        }
    }

    /// The language that a byte stands for, if any.
    pub open spec fn spec_from_bytes(byte: u8) -> Option<Language> {
        match byte {
            0x00 => Some(Language::ENGLISH),
            0x01 => Some(Language::GERMAN),
            _ => None,
        }
    }

    pub fn to_bytes(&self) -> (r: u8)
        ensures
            r == self.spec_to_bytes(),
    {
        match self {
            Language::ENGLISH => 0x00,
            Language::GERMAN => 0x01,
        }
    }

    pub fn from_bytes(byte: u8) -> (r: Option<Self>)
        ensures
            r == Language::spec_from_bytes(byte),
    {
        match byte {
            0x00 => Some(Language::ENGLISH),
            0x01 => Some(Language::GERMAN),
            _ => None,
        }
    }

    /// The locale of each language.
    pub fn locale(&self) -> (r: &str)
        ensures
            r@ == match self {
                Language::ENGLISH => "en_US"@,
                Language::GERMAN => "de_DE"@,
            },
    {
        match self {
            Language::ENGLISH => "en_US",
            Language::GERMAN => "de_DE",
        }
    }

    /// The name of each language.
    pub fn to_string(&self) -> (r: String)
        ensures
            r@ == match self {
                Language::ENGLISH => "English (US)"@,
                Language::GERMAN => "German"@,
            },
    {
        match self {
            Language::ENGLISH => String::from_str("English (US)"),
            Language::GERMAN => String::from_str("German"),
        }
    }

    /// All languages, in the order of their bytes.
    pub fn iter() -> (r: Vec<Language>)
        ensures
            r@ == seq![Language::ENGLISH, Language::GERMAN],
    {
        let mut v: Vec<Language> = Vec::new();
        v.push(Language::ENGLISH);
        v.push(Language::GERMAN);
        v
    }
}

/// Every language is read back from its byte, and every byte that stands for a language is
/// that language's byte.
pub proof fn lemma_language_byte_round_trip(lang: Language, byte: u8)
    ensures
        Language::spec_from_bytes(lang.spec_to_bytes()) == Some(lang),
        Language::spec_from_bytes(byte) matches Some(l) ==> l.spec_to_bytes() == byte,
{
}

impl Tileset {
    /// The byte that stands for each tile set.
    pub open spec fn spec_to_bytes(self) -> u8 {
        match self {
            Tileset::TinyPlatformQuestTiles => 0x00,
            Tileset::Classic => 0x01,
            Tileset::Antarctica => 0x02,
        }
    }

    /// The tile set that a byte stands for, if any.
    pub open spec fn spec_from_bytes(byte: u8) -> Option<Tileset> {
        match byte {
            0x00 => Some(Tileset::TinyPlatformQuestTiles),
            0x01 => Some(Tileset::Classic),
            0x02 => Some(Tileset::Antarctica),
            _ => None,
        }
    }

    pub fn to_bytes(&self) -> (r: u8)
        ensures
            r == self.spec_to_bytes(),
    {
        match self {
            Tileset::TinyPlatformQuestTiles => 0x00,
            Tileset::Classic => 0x01,
            Tileset::Antarctica => 0x02,
        }
    }

    pub fn from_bytes(byte: u8) -> (r: Option<Self>)
        ensures
            r == Tileset::spec_from_bytes(byte),
    {
        match byte {
            0x00 => Some(Tileset::TinyPlatformQuestTiles),
            0x01 => Some(Tileset::Classic),
            0x02 => Some(Tileset::Antarctica),
            _ => None,
        }
    }
}

/// Every tile set is read back from its byte, and every byte that stands for a tile set is
/// that tile set's byte.
pub proof fn lemma_tileset_byte_round_trip(t: Tileset, byte: u8)
    ensures
        Tileset::spec_from_bytes(t.spec_to_bytes()) == Some(t),
        Tileset::spec_from_bytes(byte) matches Some(s) ==> s.spec_to_bytes() == byte,
{
}

/// An error that might be thrown in a Config Parser
#[derive(Debug)]
pub enum ConfigParseError {
    IOError { io_error: IoError },
    BincodeError { bincode_error: Box<bincode::ErrorKind> },
}

impl ConfigParseError {
    /// The number that identifies each kind of error.
    pub open spec fn spec_numeric_error(&self) -> u8 {
        match self {
            ConfigParseError::IOError { .. } => 3,
            ConfigParseError::BincodeError { .. } => 4,
        }
    }

    pub fn numeric_error(&self) -> (r: u8)
        ensures
            r == self.spec_numeric_error(),
    {
        match self {
            ConfigParseError::IOError { .. } => 3,
            ConfigParseError::BincodeError { .. } => 4,
        }
    }

    /// The message that describes the error: that of the I/O error, or bincode's own.
    pub fn to_string(&self) -> (r: String)
        ensures
            *self matches ConfigParseError::IOError { io_error } ==> r@ == io_message(io_error),
    {
        match self {
            ConfigParseError::IOError { io_error } => io_error.to_string(),
            ConfigParseError::BincodeError { bincode_error } => bincode_error_message(bincode_error),
        }
    }
}

/// Settings in the binary format.
pub open spec fn config_bytes(language: Language, tile_set: Tileset, player_id: Seq<char>) -> Seq<u8> {
    seq![language.spec_to_bytes(), tile_set.spec_to_bytes()] + string_bytes(player_id)
}

/// What reading settings from `d` fails with, if it fails: a missing or unknown language byte, a
/// missing or unknown tile set byte, or a name that bincode cannot read.
pub open spec fn config_error(d: Seq<u8>) -> Option<ConfigErrorView> {
    if d.len() < 1 {
        Some(ConfigErrorView::Io { error: IoError::UnexpectedEof })
    } else if Language::spec_from_bytes(d[0]) is None {
        Some(ConfigErrorView::Io { error: IoError::InvalidLanguage { byte: d[0] } })
    } else if d.len() < 2 {
        Some(ConfigErrorView::Io { error: IoError::UnexpectedEof })
    } else if Tileset::spec_from_bytes(d[1]) is None {
        Some(ConfigErrorView::Io { error: IoError::InvalidTileset { byte: d[1] } })
    } else if !reads_string(d.skip(2)) {
        Some(ConfigErrorView::Bincode)
    } else {
        None
    }
}

/// An error of reading settings, as plain values.
pub enum ConfigErrorView {
    Io { error: IoError },
    Bincode,
}

/// Whether the error `e` is the one that `v` describes.
pub open spec fn config_error_is(e: ConfigParseError, v: ConfigErrorView) -> bool {
    match v {
        ConfigErrorView::Io { error } => e matches ConfigParseError::IOError { io_error } && io_error == error,
        ConfigErrorView::Bincode => e is BincodeError,
    }
}

impl Config {
    /// Write these settings in the binary format.
    pub fn serialize(&self) -> (r: Result<Vec<u8>, ConfigParseError>)
        ensures
            r is Ok,
            r matches Ok(b) ==> b@ == config_bytes(self.game_language, self.tile_set, self.player_id@),
    {
        let mut out: Vec<u8> = Vec::new();
        out.push(self.game_language.to_bytes());
        out.push(self.tile_set.to_bytes());
        let mut name_b = match serialize_string(self.player_id.as_str()) {
            Ok(b) => b,
            Err(e) => return Err(ConfigParseError::BincodeError { bincode_error: e }),
        };
        out.append(&mut name_b);
        assert(out@ =~= config_bytes(self.game_language, self.tile_set, self.player_id@));
        Ok(out)
    }

    /// Read settings into these: the language, the tile set and the player's name. Reading
    /// fails, and the settings stay as they were, when a byte is missing or stands for no
    /// language or tile set, or when the name cannot be read.
    pub fn parse(&mut self, data: &[u8]) -> (r: Result<(), ConfigParseError>)
        ensures
            match config_error(data@) {
                Some(v) => (r matches Err(e) && config_error_is(e, v)) && final(self).game_language
                    == old(self).game_language && final(self).tile_set == old(self).tile_set
                    && final(self).player_id@ == old(self).player_id@,
                None => {
                    &&& r is Ok
                    &&& Language::spec_from_bytes(data@[0]) == Some(final(self).game_language)
                    &&& Tileset::spec_from_bytes(data@[1]) == Some(final(self).tile_set)
                    &&& final(self).player_id@ == read_string_value(data@.skip(2))
                },
            },
    {
        if data.len() < 1 {
            return Err(ConfigParseError::IOError { io_error: IoError::UnexpectedEof });
        }
        let game_language = match Language::from_bytes(data[0]) {
            Some(l) => l,
            None => return Err(ConfigParseError::IOError { io_error: IoError::InvalidLanguage { byte: data[0] } }),
        };
        if data.len() < 2 {
            return Err(ConfigParseError::IOError { io_error: IoError::UnexpectedEof });
        }
        let tile_set = match Tileset::from_bytes(data[1]) {
            Some(t) => t,
            None => return Err(ConfigParseError::IOError { io_error: IoError::InvalidTileset { byte: data[1] } }),
        };
        let rest = &data[2..data.len()];
        assert(rest@ =~= data@.skip(2));
        let player_id = match deserialize_string(rest) {
            Ok(s) => s,
            Err(e) => return Err(ConfigParseError::BincodeError { bincode_error: e }),
        };
        self.game_language = game_language;
        self.tile_set = tile_set;
        self.player_id = player_id;
        Ok(())
    }
}

/// Settings written in the binary format read back as the same settings, when the player's
/// name can be written.
pub proof fn lemma_config_round_trip(language: Language, tile_set: Tileset, player_id: Seq<char>)
    requires
        encode_utf8(player_id).len() <= usize::MAX,
    ensures
        config_error(config_bytes(language, tile_set, player_id)) is None,
        Language::spec_from_bytes(config_bytes(language, tile_set, player_id)[0]) == Some(language),
        Tileset::spec_from_bytes(config_bytes(language, tile_set, player_id)[1]) == Some(tile_set),
        read_string_value(config_bytes(language, tile_set, player_id).skip(2)) == player_id,
{
    let d = config_bytes(language, tile_set, player_id);
    assert(d.skip(2) =~= string_bytes(player_id) + Seq::<u8>::empty());
    lemma_string_round_trip(player_id, Seq::empty());
}

} // verus!
