use libexodus::tiles::Tile;
use libexodus::world::GameWorld;
use libexodus::worldgeneration::maze::Maze;
use libexodus::worldgeneration::{build_generator, WorldGenerationError, WorldGenerationKind, WorldSize};

/// Assert that the given map's content matches the given string.
/// The string must be given as 2D-Map, with "W" being a Wall tile, "N" being a
/// Nature Wall Tile and " " being Air.
fn assert_map_content_matches(expected: &str, map: &GameWorld) {
    let lines: Vec<&str> = expected.split("\n").filter(|l| l.len() > 0).collect();
    let expected_h = lines.len();
    let expected_w = lines[0].len();
    assert_eq!(expected_h, map.height());
    assert_eq!(expected_w, map.width());
    for (y, line) in lines.iter().enumerate() {
        assert_eq!(expected_w, line.len());
        for (x, tile) in line.chars().enumerate() {
            let my = (map.height() - y - 1) as i32;
            assert_eq!(
                &match tile {
                    'W' => Tile::WALL,
                    'N' => Tile::WALLNATURE,
                    ' ' => Tile::AIR,
                    e => panic!("Unrecognized tile: {}", e),
                },
                map.get(x as i32, my).unwrap(),
                "Expected {} tile at position {},{}",
                tile,
                x,
                my,
            );
        }
    }
}

#[test]
fn empty_test_generate_2x2_map() {
    let algo = build_generator(WorldGenerationKind::Empty, 2, 2);
    let result = algo.generate();
    assert!(result.is_ok());
    let map = result.unwrap();
    assert_map_content_matches("  \n  ", &map);
}

#[test]
fn filled_test_generate_2x2_map() {
    let algo = build_generator(WorldGenerationKind::Filled { color: Tile::WALL }, 2, 2);
    let result = algo.generate();
    assert!(result.is_ok());
    let map = result.unwrap();
    assert_map_content_matches("WW\nWW", &map);
}

#[test]
fn test_generate_10x2_map() {
    let algo = build_generator(WorldGenerationKind::Filled { color: Tile::WALL }, 10, 2);
    let result = algo.generate();
    assert!(result.is_ok());
    let map = result.unwrap();
    assert_map_content_matches("WWWWWWWWWW\nWWWWWWWWWW", &map);
}

#[test]
fn maze_test_generate_2x2_map() {
    let algo = Maze { width: 2, height: 2, color: Tile::WALL, seed: 0 };
    let result = algo.generate();
    assert!(result.is_ok());
    let map = result.unwrap();
    assert_eq!(2, map.height());
    assert_eq!(2, map.width());
}

#[test]
fn maze_tiles_are_air_or_wall_and_seeded() {
    let algo = Maze { width: 15, height: 9, color: Tile::WALLNATURE, seed: 42 };
    let a = algo.generate().unwrap();
    let b = algo.generate().unwrap();
    let mut air = 0;
    for x in 0..15 {
        for y in 0..9 {
            let t = a.get(x, y).unwrap();
            assert!(*t == Tile::AIR || *t == Tile::WALLNATURE);
            assert_eq!(a.get(x, y), b.get(x, y));
            if *t == Tile::AIR {
                air += 1;
            }
        }
    }
    assert!(air > 0);
}

#[test]
fn generators_reject_small_sizes() {
    assert!(matches!(
        build_generator(WorldGenerationKind::Empty, 0, 3).generate(),
        Err(WorldGenerationError::InvalidWidth { width: 0 })
    ));
    assert!(matches!(
        build_generator(WorldGenerationKind::Filled { color: Tile::WALL }, 3, 0).generate(),
        Err(WorldGenerationError::InvalidHeight { height: 0 })
    ));
    assert!(matches!(
        Maze { width: 1, height: 5, color: Tile::WALL, seed: 0 }.generate(),
        Err(WorldGenerationError::InvalidWidth { width: 1 })
    ));
    assert!(matches!(
        Maze { width: 5, height: 1, color: Tile::WALL, seed: 0 }.generate(),
        Err(WorldGenerationError::InvalidHeight { height: 1 })
    ));
}

#[test]
fn world_sizes_and_kinds() {
    assert_eq!(WorldSize::Classic5mx.width(), 35);
    assert_eq!(WorldSize::Classic5mx.height(), 15);
    assert_eq!(WorldSize::Huge.width(), 50);
    assert_eq!(WorldSize::Custom { width: 7, height: 8 }.height(), 8);
    assert_eq!(WorldSize::default(), WorldSize::Classic5mx);
    assert!(WorldGenerationKind::Labyrinth { color: Tile::WALL }.is_seeded());
    assert!(!WorldGenerationKind::Empty.is_seeded());
    let algo = build_generator(WorldGenerationKind::Empty, 4, 6);
    assert_eq!(*algo.width(), 4);
    assert_eq!(*algo.height(), 6);
}

#[test]
fn maze_opens_every_cell_between_walls() {
    for seed in [0u32, 1, 42, 0xdeadbeef] {
        let algo = Maze { width: 11, height: 9, color: Tile::WALLCOBBLE, seed: seed };
        let map = algo.generate().unwrap();
        assert_eq!(map.width(), 11);
        assert_eq!(map.height(), 9);
        // For some start cell, every tile an even number of columns and rows away from it is
        // air, and every tile an odd number of columns and rows away from it is a wall.
        let mut found = false;
        for sx in 0..11i32 {
            for sy in 0..9i32 {
                if map.get(sx, sy) != Some(&Tile::AIR) {
                    continue;
                }
                let mut walls = true;
                for x in 0..11i32 {
                    for y in 0..9i32 {
                        if (x - sx) % 2 != 0 && (y - sy) % 2 != 0 && map.get(x, y) != Some(&Tile::WALLCOBBLE) {
                            walls = false;
                        }
                        if (x - sx) % 2 == 0 && (y - sy) % 2 == 0 && map.get(x, y) != Some(&Tile::AIR) {
                            walls = false;
                        }
                    }
                }
                found = found || walls;
            }
        }
        assert!(found, "no start cell fits the maze of seed {}", seed);
    }
}

#[test]
fn labyrinth_is_generated_as_an_empty_map() {
    let algo = build_generator(WorldGenerationKind::Labyrinth { color: Tile::WALL }, 3, 2);
    let map = algo.generate().unwrap();
    assert_eq!(map.width(), 3);
    assert_eq!(map.height(), 2);
    for x in 0..3 {
        for y in 0..2 {
            assert_eq!(map.get(x, y), Some(&Tile::AIR));
        }
    }
}
