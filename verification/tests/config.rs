use libexodus::config::{Config, ConfigParseError, Language};
use libexodus::io_error::IoError;
use libexodus::tilesets::Tileset;

#[test]
fn test_bidirectional_serialization_for_language() {
    for lang in Language::iter() {
        let reference = &lang;
        let actual = Language::from_bytes(reference.to_bytes());
        assert!(
            actual.is_some(),
            "Deserializing Language {} (0x{:02X}) resulted in an error",
            reference.to_string(),
            reference.to_bytes(),
        );
        let actual = actual.unwrap();
        assert_eq!(
            *reference,
            actual,
            "The Language {} (0x{:02X}) deserialized into Language {} (0x{:02X}) !",
            reference.to_string(),
            reference.to_bytes(),
            actual.to_string(),
            actual.to_bytes(),
        );
    }
}

#[test]
fn test_bidirectional_serialization_for_tileset() {
    for lang in Tileset::iter() {
        let reference = &lang;
        let actual = Tileset::from_bytes(reference.to_bytes());
        assert!(
            actual.is_some(),
            "Deserializing Tile Set {} (0x{:02X}) resulted in an error",
            reference.to_string(),
            reference.to_bytes(),
        );
        let actual = actual.unwrap();
        assert_eq!(
            *reference,
            actual,
            "The Tile Set {} (0x{:02X}) deserialized into Tile Set {} (0x{:02X}) !",
            reference.to_string(),
            reference.to_bytes(),
            actual.to_string(),
            actual.to_bytes(),
        );
    }
}

fn test_write_and_read_config(config: &mut Config) {
    let result = config.serialize();
    assert!(result.is_ok(), "Config failed to serialize with error: {:?}", result.as_ref().unwrap_err());
    let data = result.unwrap();
    let mut result_config = Config::default();
    let result = result_config.parse(&data);
    assert!(result.is_ok(), "Config failed to parse with error: {:?}", result.unwrap_err());
    assert_eq!(config.game_language, result_config.game_language);
    assert_eq!(config.tile_set, result_config.tile_set);
    assert_eq!(config.player_id, result_config.player_id);
}

#[test]
fn test_write_and_read_default_config() {
    let mut config = Config::default();
    test_write_and_read_config(&mut config);
}

#[test]
fn test_write_and_read_german_config() {
    let mut config = Config::default();
    config.game_language = Language::GERMAN;
    config.player_id = "Stefan".to_string();
    test_write_and_read_config(&mut config);
}

#[test]
fn test_write_and_read_german_config_classic() {
    let mut config = Config::default();
    config.game_language = Language::GERMAN;
    config.tile_set = Tileset::Classic;
    config.player_id = "Eberhardt".to_string();
    test_write_and_read_config(&mut config);
}

#[test]
fn config_bytes_are_language_tileset_and_name() {
    let mut config = Config::default();
    config.game_language = Language::GERMAN;
    config.tile_set = Tileset::Antarctica;
    config.player_id = "Bo".to_string();
    let data = config.serialize().unwrap();
    assert_eq!(data, vec![0x01, 0x02, 2, 0, 0, 0, 0, 0, 0, 0, b'B', b'o']);
}

#[test]
fn config_invalid_language_and_tileset() {
    let mut config = Config::default();
    let result = config.parse(&[0x07, 0x00]);
    assert!(matches!(result, Err(ConfigParseError::IOError { io_error: IoError::InvalidLanguage { byte: 0x07 } })));
    let result = config.parse(&[0x01, 0x09]);
    assert!(matches!(result, Err(ConfigParseError::IOError { io_error: IoError::InvalidTileset { byte: 0x09 } })));
    assert_eq!(config.game_language, Language::ENGLISH);
    let result = config.parse(&[]);
    assert_eq!(result.unwrap_err().numeric_error(), 3);
    let result = config.parse(&[0x00, 0x00, 5, 0, 0]);
    assert_eq!(result.unwrap_err().numeric_error(), 4);
}

#[test]
fn language_locale_and_name() {
    assert_eq!(Language::ENGLISH.locale(), "en_US");
    assert_eq!(Language::GERMAN.locale(), "de_DE");
    assert_eq!(Language::GERMAN.to_string(), "German");
    assert_eq!(Language::default(), Language::ENGLISH);
}
