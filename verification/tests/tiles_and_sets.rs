use libexodus::directions::{Directions, FromDirection};
use libexodus::tiles::{TeleportId, Tile, TileKind};
use libexodus::tilesets::{Color, Tileset};
use libexodus::world::presets::map_with_border;

#[test]
fn test_color_from_tuple() {
    let color = Color::from((255, 255, 255));
    assert_eq!(color.r, 255);
    assert_eq!(color.g, 255);
    assert_eq!(color.b, 255);
}

#[test]
fn test_color_to_html() {
    let color = Color::from((255, 255, 255));
    assert_eq!("#FFFFFF", color.to_string());
}

#[test]
fn it_works() {
    let result = 2 + 2;
    assert_eq!(result, 4);
}

#[test]
fn color_html_digits() {
    assert_eq!("#0A1B2C", Color { r: 0x0a, g: 0x1b, b: 0x2c }.to_string());
}

#[test]
fn tileset_properties() {
    assert_eq!(Tileset::Classic.background_color(), Color { r: 0xff, g: 0xff, b: 0xff });
    assert_eq!(Tileset::iter().len(), 3);
    assert_eq!(Tileset::default(), Tileset::TinyPlatformQuestTiles);
}

#[test]
fn teleport_ids_round_trip() {
    for id in [TeleportId::ONE, TeleportId::TWO, TeleportId::THREE, TeleportId::FOUR] {
        assert_eq!(TeleportId::const_from_u8(id.const_to_u8()), id);
    }
}

#[test]
fn tile_bytes() {
    assert_eq!(Tile::AIR.to_bytes(), 0x00);
    assert_eq!(Tile::PLAYERSPAWN.to_bytes(), 0x10);
    assert_eq!(Tile::from_bytes(0xfe), None);
    assert_eq!(Tile::iter().len(), Tile::COUNT);
}

#[test]
fn deadly_sides_do_not_collide() {
    for tile in Tile::iter() {
        for d in [FromDirection::FROMNORTH, FromDirection::FROMSOUTH, FromDirection::FROMEAST, FromDirection::FROMWEST] {
            if tile.is_deadly_from(&d) {
                assert!(!tile.can_collide_from(&d));
            }
        }
    }
    assert!(matches!(Tile::PLAYERSPAWN.kind(), TileKind::PLAYERSPAWN));
    assert!(matches!(Tile::AIR.kind(), TileKind::AIR));
}

#[test]
fn directions_turn_into_sides() {
    assert_eq!(FromDirection::from(Directions::NORTH), FromDirection::FROMSOUTH);
}

#[test]
fn border_map() {
    let map = map_with_border(4, 3);
    assert_eq!(map.get(0, 0), Some(&Tile::WALL));
    assert_eq!(map.get(1, 1), Some(&Tile::AIR));
    assert_eq!(map.get(3, 2), Some(&Tile::WALL));
}
