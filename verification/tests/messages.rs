use libexodus::campaign::graph::{GraphParseError, GraphValidationError};
use libexodus::config::ConfigParseError;
use libexodus::directories::InvalidMapNameError;
use libexodus::highscores::io_error::HighscoreParseError;
use libexodus::io_error::IoError;
use libexodus::numbers::parse_u16;
use libexodus::world::io_error::GameWorldParseError;
use std::path::PathBuf;

#[test]
fn io_error_messages() {
    assert_eq!(IoError::UnexpectedEof.to_string(), "failed to fill whole buffer");
    assert_eq!(IoError::InvalidData.to_string(), "stream did not contain valid UTF-8");
    assert_eq!(IoError::InvalidLanguage { byte: 0x07 }.to_string(), "Invalid Language 0x07");
    assert_eq!(IoError::InvalidTileset { byte: 0xfe }.to_string(), "Invalid Tileset 0xFE");
}

#[test]
fn world_error_messages() {
    let expected: [u8; 9] = [0x45, 0x78, 0x6f, 0x64, 0x75, 0x73, 0x4d, 0x61, 0x70];
    let actual: [u8; 9] = [0, 1, 2, 3, 4, 5, 6, 7, 0xff];
    assert_eq!(
        GameWorldParseError::InvalidMagicBytes { expected, actual }.to_string(),
        format!("Invalid Magic Bytes in Map File! Expected: {:02x?} Got: {:02x?}", expected, actual)
    );
    assert_eq!(GameWorldParseError::NotImplemented.to_string(), "Not Implemented");
    assert_eq!(GameWorldParseError::InvalidVersion { invalid_version: 0xab }.to_string(), "Invalid Map Version: 0xab");
    assert_eq!(
        GameWorldParseError::IOError { io_error: IoError::UnexpectedEof }.to_string(),
        "failed to fill whole buffer"
    );
    assert_eq!(
        GameWorldParseError::InvalidMapWidth { max_width: 255, actual_width: 300 }.to_string(),
        "Invalid Map Width: 300 (Max allowed width: 255)"
    );
    assert_eq!(
        GameWorldParseError::InvalidMapHeight { max_height: 255, actual_height: 0 }.to_string(),
        "Invalid Map Height: 0 (Max allowed height: 255)"
    );
    assert_eq!(
        GameWorldParseError::UnexpectedEndOfTileData { position: 12, io_error: IoError::UnexpectedEof }.to_string(),
        "Unexpected end of Tile Data at position 12! failed to fill whole buffer"
    );
    assert_eq!(
        GameWorldParseError::InvalidTile { tile_bytes: 0x0f }.to_string(),
        "Tile Byte not recognized as valid tile: 0x0f"
    );
    let mut hash_a = [0u8; 32];
    let mut hash_b = [0u8; 32];
    for i in 0..32 {
        hash_a[i] = i as u8;
        hash_b[i] = 0xff - i as u8;
    }
    assert_eq!(
        GameWorldParseError::HashMismatch { expected: hash_a, actual: hash_b }.to_string(),
        format!("Hash Mismatch - your map file might be corrupted!\nExpected: {:02x?}\nActual: {:02x?}", hash_a, hash_b)
    );
}

#[test]
fn bincode_error_messages_are_bincodes_own() {
    let error: Box<bincode::ErrorKind> = Box::new(bincode::ErrorKind::SizeLimit);
    let text = error.to_string();
    assert_eq!(GameWorldParseError::BincodeError { bincode_error: error }.to_string(), text);
    let error: Box<bincode::ErrorKind> = Box::new(bincode::ErrorKind::InvalidBoolEncoding(7));
    let text = error.to_string();
    assert_eq!(ConfigParseError::BincodeError { bincode_error: error }.to_string(), text);
}

#[test]
fn highscore_error_messages() {
    let expected: [u8; 18] = [0x45; 18];
    let actual: [u8; 18] = [0x0a; 18];
    assert_eq!(
        HighscoreParseError::InvalidMagicBytes { expected, actual }.to_string(),
        format!("Invalid Magic Bytes in Map File! Expected: {:02x?} Got: {:02x?}", expected, actual)
    );
    assert_eq!(HighscoreParseError::InvalidVersion { invalid_version: 2 }.to_string(), "Invalid Map Version: 0x02");
    assert_eq!(
        HighscoreParseError::UnexpectedEndOfData { position: 0, io_error: IoError::UnexpectedEof }.to_string(),
        "Unexpected end of Tile Data at position 0! failed to fill whole buffer"
    );
    assert_eq!(
        HighscoreParseError::DuplicateHighscoreEntry.to_string(),
        "Unexpected duplicate highscore entry found!"
    );
    assert_eq!(
        HighscoreParseError::DuplicateDatabaseEntry.to_string(),
        "Unexpected duplicate entry found in database file!"
    );
    assert_eq!(
        HighscoreParseError::DuplicatePlayerEntry.to_string(),
        "Unexpected duplicate player entry found in highscore database file!"
    );
    let hash_a = [0x12u8; 32];
    let hash_b = [0xa0u8; 32];
    assert_eq!(
        HighscoreParseError::HashMismatch { expected: hash_a, actual: hash_b }.to_string(),
        format!("Invalid Map Hash in Map File! Expected: {:02x?} Got: {:02x?}", hash_a, hash_b)
    );
}

#[test]
fn config_error_messages() {
    assert_eq!(
        ConfigParseError::IOError { io_error: IoError::InvalidTileset { byte: 0x2a } }.to_string(),
        "Invalid Tileset 0x2A"
    );
}

#[test]
fn graph_error_messages() {
    let validation = GraphValidationError::AdjacentNodesAreNotConnected {
        node1_id: 1,
        node1_x: 0,
        node1_y: -1,
        node2_id: 65535,
        node2_x: -32768,
        node2_y: 32767,
    };
    let text = "The adjacent nodes 1 (at 0,-1) and 65535 (at -32768,32767) must be connected through an edge explicitly!";
    assert_eq!(validation.to_string(), text);
    assert_eq!(GraphParseError::ValidationError { error: validation }.to_string(), format!("Graph Validation failed: {}", text));
    assert_eq!(GraphParseError::SyntaxError { line: 3 }.to_string(), "Syntax Error in line 3");
    assert_eq!(GraphParseError::DuplicateNodeId { line: 10, id: 42 }.to_string(), "Duplicate Node 42 in line 10");
    assert_eq!(GraphParseError::NegativeIDGiven { id: -5, line: 2 }.to_string(), "Invalid negative ID -5 in line 2");
    assert_eq!(
        GraphParseError::MissingEdgeSpecificationSection.to_string(),
        "Missing Edge Specification Section"
    );
    assert_eq!(
        GraphParseError::DuplicateEdgeLabel { label: "over the bridge".to_string() }.to_string(),
        "Duplicate Edge Label: over the bridge"
    );
    assert_eq!(
        GraphParseError::IOError { error: IoError::InvalidData }.to_string(),
        "stream did not contain valid UTF-8"
    );
    let int_error = parse_u16("1x").unwrap_err();
    assert_eq!(
        GraphParseError::InvalidInteger { error: int_error }.to_string(),
        "Could not parse Integer: invalid digit found in string"
    );
}

#[test]
fn map_name_error_messages() {
    assert_eq!(InvalidMapNameError::EmptyName.to_string(), "Empty file name!");
    assert_eq!(
        InvalidMapNameError::InvalidCharacter { c: '?' }.to_string(),
        "Invalid character in map file name: ?"
    );
    let p = PathBuf::from("/some/where/map.exm");
    assert_eq!(InvalidMapNameError::InvalidPath { p: p.clone() }.to_string(), format!("Invalid path: {:?}", p));
    let e = PathBuf::from("/a/b").strip_prefix("/c").unwrap_err();
    assert_eq!(
        InvalidMapNameError::NotASubpath { e: e.clone() }.to_string(),
        format!("Not a sub path of map folder: {}", e)
    );
}
