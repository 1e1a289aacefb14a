use libexodus::tiles::Tile;
use libexodus::tilesets::Tileset::Classic;
use libexodus::world::hash::RecomputeHashResult;
use libexodus::world::io::{CURRENT_MAP_VERSION, HASH_LENGTH, MAGICBYTES, MAX_MAP_WIDTH};
use libexodus::world::io_error::GameWorldParseError;
use libexodus::world::GameWorld;

#[test]
fn test_bidirectional_serialization_for_tiles() {
    for tile in Tile::iter() {
        let reference: &Tile = &tile;
        let actual = Tile::from_bytes(reference.to_bytes());
        assert!(
            actual.is_some(),
            "Deserializing Tile {} (0x{:02X}) resulted in an error",
            reference.to_string(),
            reference.to_bytes(),
        );
        let actual = actual.unwrap();
        assert_eq!(
            *reference,
            actual,
            "The Tile {} (0x{:02X}) deserialized into tile {} (0x{:02X}) !",
            reference.to_string(),
            reference.to_bytes(),
            actual.to_string(),
            actual.to_bytes(),
        );
    }
}

fn test_write_and_read_map(map: &mut GameWorld) {
    map.recompute_hash();
    let result = map.serialize();
    assert!(result.is_ok(), "Map failed to serialize with error: {:?}", result.as_ref().unwrap_err());
    let data = result.unwrap();
    let mut result_map = GameWorld::new(1, 1);
    let result = result_map.parse(&data);
    assert!(result.is_ok(), "Map failed to parse with error: {:?}", result.unwrap_err());
    assert_eq!(map.hash(), result_map.hash());
    assert_eq!(map.get_author(), result_map.get_author());
    assert_eq!(map.get_name(), result_map.get_name());
    assert_eq!(map.width(), result_map.width());
    assert_eq!(map.height(), result_map.height());
}

#[test]
fn test_write_and_read_simple_map() {
    let mut reference_map = GameWorld::new(2, 2);
    reference_map.set(0, 0, Tile::WALL).set(1, 0, Tile::DOOR).set(1, 1, Tile::PLAYERSPAWN).set(0, 1, Tile::AIR);
    test_write_and_read_map(&mut reference_map);
}

#[test]
fn test_map_with_invalid_hash() {
    let mut map = GameWorld::exampleworld();
    let mut data: Vec<u8> = vec![];
    data.extend_from_slice(&MAGICBYTES);
    data.push(CURRENT_MAP_VERSION);
    data.extend_from_slice(&bincode::serialize(map.get_name()).unwrap());
    data.extend_from_slice(&bincode::serialize(map.get_author()).unwrap());
    map.set(0, 0, Tile::WALL).set(1, 0, Tile::DOOR).set(1, 1, Tile::PLAYERSPAWN).set(0, 1, Tile::AIR);
    let result = map.serialize();
    assert!(result.is_ok());
    let mut buf = result.unwrap();
    let mut result_map = GameWorld::new(1, 1);
    let hash_offset: usize = data.len() + 16;
    let val = buf[hash_offset];
    buf[hash_offset] = val + 1;
    let result = result_map.parse(&buf);
    assert!(&result.is_err(), "Map with invalid hash parsed correctly");
    assert_eq!(9, result.as_ref().unwrap_err().numeric_error(), "Expected Hash Mismatch, got {:?}", &result);
}

#[test]
fn test_write_and_read_map_with_empty_name() {
    let mut reference_map = GameWorld::new(2, 2);
    reference_map
        .set(0, 0, Tile::WALL)
        .set(1, 0, Tile::DOOR)
        .set(1, 1, Tile::KEY)
        .set(0, 1, Tile::AIR)
        .set_name("")
        .set_author("John Doe")
        .set_clean();
    test_write_and_read_map(&mut reference_map);
}

#[test]
fn test_write_and_read_map_with_empty_author() {
    let mut reference_map = GameWorld::new(2, 2);
    reference_map
        .set(0, 0, Tile::AIR)
        .set(1, 0, Tile::WALL)
        .set(1, 1, Tile::SPIKES)
        .set(0, 1, Tile::COIN)
        .set_name("Test Map")
        .set_author("")
        .set_dirty();
    test_write_and_read_map(&mut reference_map);
}

#[test]
fn test_write_and_read_map_with_all_tiles() {
    let mut reference_map = GameWorld::new(Tile::COUNT, 1);
    for (i, tile) in Tile::iter().into_iter().enumerate() {
        reference_map.set(i, 0, tile);
    }
    test_write_and_read_map(&mut reference_map);
}

#[test]
fn test_map_with_invalid_magic_bytes() {
    let data: [u8; 100] = [0x00; 100];
    let mut map = GameWorld::new(1, 1);
    let result = map.parse(&data);
    assert!(result.is_err());
    assert_eq!(
        result.unwrap_err().numeric_error(),
        GameWorldParseError::InvalidMagicBytes { expected: MAGICBYTES, actual: [0u8; 9] }.numeric_error()
    );
}

#[test]
fn test_map_with_invalid_version() {
    let mut data: Vec<u8> = vec![];
    data.extend_from_slice(&MAGICBYTES);
    data.push(0xff);
    data.extend_from_slice(&[0; 100]);
    let mut map = GameWorld::new(1, 1);
    let result = map.parse(&data);
    assert!(result.is_err());
    assert_eq!(
        result.unwrap_err().numeric_error(),
        GameWorldParseError::InvalidVersion { invalid_version: 0xff }.numeric_error()
    );
}

#[test]
fn map_round_trip_keeps_tiles_and_spawn() {
    let mut map = GameWorld::new(3, 2);
    map.set(0, 0, Tile::WALL).set(2, 1, Tile::PLAYERSPAWN).set(1, 0, Tile::COIN);
    map.recompute_hash();
    let data = map.serialize().unwrap();
    let mut read = GameWorld::new(1, 1);
    assert!(read.parse(&data).is_ok());
    for x in 0..3 {
        for y in 0..2 {
            assert_eq!(map.get(x, y), read.get(x, y));
        }
    }
    assert_eq!(read.player_spawn(), (2, 1));
    assert_eq!(read.hash_str(), map.hash_str());
}

#[test]
fn map_with_invalid_width_and_truncated_tiles() {
    let mut map = GameWorld::new(2, 1);
    map.recompute_hash();
    let data = map.serialize().unwrap();
    let width_pos = data.len() - 2 - 16;
    let mut wide = data.clone();
    wide[width_pos] = 0;
    wide[width_pos + 1] = 0x08;
    let mut read = GameWorld::new(1, 1);
    assert_eq!(read.parse(&wide).unwrap_err().numeric_error(), 5);
    let short = &data[0..data.len() - 1];
    match read.parse(short) {
        Err(GameWorldParseError::UnexpectedEndOfTileData { position, .. }) => assert_eq!(position, 1),
        other => panic!("Expected the tile data to end early, got {:?}", other),
    }
    let mut bad_tile = data.clone();
    let last = bad_tile.len() - 1;
    bad_tile[last] = 0xfe;
    assert!(matches!(read.parse(&bad_tile), Err(GameWorldParseError::InvalidTile { tile_bytes: 0xfe })));
    assert_eq!(read.width(), 1);
}

fn assert_hashes_are_equal(hash1: &[u8; 32], hash2: &[u8; 32]) {
    assert_eq!(32, hash1.iter().zip(hash2.iter()).filter(|&(a, b)| a == b).count())
}

fn assert_hashes_are_not_equal(hash1: &[u8; 32], hash2: &[u8; 32]) {
    assert_ne!(32, hash1.iter().zip(hash2.iter()).filter(|&(a, b)| a == b).count())
}

#[test]
fn test_map_hash_simple() {
    let mut map = GameWorld::exampleworld();
    assert_hashes_are_equal(&[0u8; 32], map.hash());
    match map.recompute_hash() {
        RecomputeHashResult::CHANGED { .. } => {},
        x => panic!("Result was {:?} - Hash was {:?}", x, map.hash()),
    };
    let new_hash = *map.hash();
    match map.recompute_hash() {
        RecomputeHashResult::SAME => {},
        x => panic!("Result was {:?} - Hash was {:?}", x, map.hash()),
    };
    assert_hashes_are_equal(map.hash(), &new_hash);
}

#[test]
fn test_map_hash_stays_same_for_different_tileset() {
    let mut map = GameWorld::exampleworld();
    let mut same_map = GameWorld::exampleworld();
    map.recompute_hash();
    same_map.recompute_hash();
    assert_hashes_are_equal(map.hash(), same_map.hash());
    same_map.set_forced_tileset(Some(Classic));
    assert_ne!(map.forced_tileset(), same_map.forced_tileset());
    assert!(matches!(same_map.recompute_hash(), RecomputeHashResult::SAME));
    assert_hashes_are_equal(map.hash(), same_map.hash());
}

#[test]
fn test_map_hash_changing() {
    let mut map = GameWorld::exampleworld();
    assert_ne!(&Tile::DOOR, map.get(0, 0).unwrap());
    let old_tile = map.get(0, 0).unwrap().clone();
    match map.recompute_hash() {
        RecomputeHashResult::CHANGED { .. } => {},
        x => panic!("Result was {:?} - Hash was {:?}", x, map.hash()),
    };
    let old_hash = *map.hash();
    map.set(0, 0, Tile::DOOR);
    match map.recompute_hash() {
        RecomputeHashResult::CHANGED { .. } => {},
        x => panic!("Result was {:?} - Hash was {:?}", x, map.hash()),
    };
    assert_hashes_are_not_equal(map.hash(), &old_hash);
    let new_hash = *map.hash();
    map.set(0, 0, old_tile);
    match map.recompute_hash() {
        RecomputeHashResult::CHANGED { .. } => {},
        x => panic!("Result was {:?} - Hash was {:?}", x, map.hash()),
    };
    assert_hashes_are_equal(&old_hash, map.hash());
    assert_hashes_are_not_equal(&old_hash, &new_hash);
}

#[test]
fn hash_str_is_upper_case_hex() {
    let map = GameWorld::new(1, 1);
    assert_eq!(map.hash_str(), "0".repeat(64));
}

#[test]
fn reset_game_state_closes_doors() {
    let mut map = GameWorld::new(2, 1);
    map.set(0, 0, Tile::OPENDOOR).set(1, 0, Tile::DOOR);
    map.reset_game_state();
    assert_eq!(map.get(0, 0), Some(&Tile::DOOR));
    assert_eq!(map.get(1, 0), Some(&Tile::DOOR));
    assert_eq!(map.get(2, 0), None);
    assert_eq!(map.get(-1, 0), None);
}

#[test]
fn message_tiles_and_messages() {
    let mut map = GameWorld::new(2, 2);
    map.set_message_tile(1, 1, "Hello".to_string());
    assert_eq!(map.get(1, 1), Some(&Tile::MESSAGE { message_id: 0 }));
    assert_eq!(map.get_message(0), Some("Hello"));
    assert!(map.set_message(0, "Bye".to_string()).is_ok());
    assert_eq!(map.get_message(0), Some("Bye"));
    assert!(map.set_message(1, "No".to_string()).is_err());
    assert_eq!(map.get_message(1), None);
}

#[test]
fn fill_replaces_every_tile() {
    let mut map = GameWorld::new(3, 2);
    map.fill(&Tile::PLAYERSPAWN);
    assert_eq!(map.player_spawn(), (2, 1));
    assert_eq!(map.get(0, 1), Some(&Tile::PLAYERSPAWN));
}

#[test]
fn test_map_with_invalid_name_string() {
    let mut data: Vec<u8> = vec![];
    data.extend_from_slice(&MAGICBYTES);
    data.push(CURRENT_MAP_VERSION);
    data.extend_from_slice(&[0xffu8; 100]);
    let mut map = GameWorld::new(1, 1);
    let result = map.parse(&data);
    assert!(result.is_err());
    assert_eq!(
        result.unwrap_err().numeric_error(),
        GameWorldParseError::BincodeError { bincode_error: Box::new(bincode::ErrorKind::InvalidCharEncoding) }
            .numeric_error()
    );
}

#[test]
fn test_map_with_invalid_author_string() {
    let mut data: Vec<u8> = vec![];
    data.extend_from_slice(&MAGICBYTES);
    data.push(CURRENT_MAP_VERSION);
    data.extend_from_slice(&bincode::serialize("Test Name").unwrap());
    data.extend_from_slice(&[0xffu8; 100]);
    let mut map = GameWorld::new(1, 1);
    let result = map.parse(&data);
    assert!(result.is_err());
    assert_eq!(
        result.unwrap_err().numeric_error(),
        GameWorldParseError::BincodeError { bincode_error: Box::new(bincode::ErrorKind::InvalidCharEncoding) }
            .numeric_error()
    );
}

/// A header whose width is `width` and whose height is one.
fn header_with_width(width: usize) -> Vec<u8> {
    let mut data: Vec<u8> = vec![];
    data.extend_from_slice(&MAGICBYTES);
    data.push(CURRENT_MAP_VERSION);
    data.extend_from_slice(&bincode::serialize("Test Name").unwrap());
    data.extend_from_slice(&bincode::serialize("Test Author").unwrap());
    data.extend_from_slice(&[0xffu8; HASH_LENGTH]);
    data.extend_from_slice(&bincode::serialize(&width).unwrap());
    data.extend_from_slice(&bincode::serialize(&1usize).unwrap());
    data
}

#[test]
fn map_width_out_of_range_is_rejected() {
    let mut map = GameWorld::new(1, 1);
    match map.parse(&header_with_width(MAX_MAP_WIDTH + 1)) {
        Err(GameWorldParseError::InvalidMapWidth { max_width, actual_width }) => {
            assert_eq!(max_width, MAX_MAP_WIDTH);
            assert_eq!(actual_width, MAX_MAP_WIDTH + 1);
        },
        other => panic!("Expected an invalid width, got {:?}", other.err()),
    }
    match map.parse(&header_with_width(0)) {
        Err(GameWorldParseError::InvalidMapWidth { actual_width, .. }) => assert_eq!(actual_width, 0),
        other => panic!("Expected an invalid width, got {:?}", other.err()),
    }
    // Without the height, the header ends too early for bincode.
    let mut short = header_with_width(MAX_MAP_WIDTH + 1);
    short.truncate(short.len() - 8);
    assert_eq!(map.parse(&short).unwrap_err().numeric_error(), 4);
}
