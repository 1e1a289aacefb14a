use crate::tiles::Tile;
use crate::world::presets::{border_tile, map_with_border};
use crate::world::GameWorld;
use vstd::prelude::*;

verus! {

/// The tile at `(x, y)` after placing the tiles `ps` in order on a map whose tile there was `base`.
pub open spec fn placed_tile(ps: Seq<(usize, usize, Tile)>, x: int, y: int, base: Tile) -> Tile
    decreases ps.len(),
{
    if ps.len() == 0 {
        base
    } else if ps.last().0 == x && ps.last().1 == y {
        ps.last().2
    } else {
        placed_tile(ps.drop_last(), x, y, base)
    }
}

/// The player spawn after placing the tiles `ps` in order on a map whose spawn was `base`.
pub open spec fn placed_spawn(ps: Seq<(usize, usize, Tile)>, base: (usize, usize)) -> (usize, usize)
    decreases ps.len(),
{
    if ps.len() == 0 {
        base
    } else if ps.last().2.spec_kind() is PLAYERSPAWN {
        (ps.last().0, ps.last().1)
    } else {
        placed_spawn(ps.drop_last(), base)
    }
}

/// The tiles placed on the example world, in order.
pub open spec fn example_placements() -> Seq<(usize, usize, Tile)> {
    seq![
        (2, 1, Tile::WALL),
        (1, 1, Tile::WALL),
        (1, 2, Tile::PLAYERSPAWN),
        (3, 1, Tile::SPIKES),
        (2, 2, Tile::WALL),
        (3, 3, Tile::SPIKESSLOPED),
        (4, 3, Tile::WALLCOBBLE),
        (4, 2, Tile::WALLCHISELED),
        (4, 1, Tile::WALLSMOOTH),
        (4, 0, Tile::WALLSMOOTH),
        (5, 1, Tile::SPIKES),
        (6, 1, Tile::SPIKESALT),
        (8, 2, Tile::WALLSPIKESRLTB),
        (1, 4, Tile::WALL),
        (1, 8, Tile::KEY),
        (2, 6, Tile::WALLNATURE),
        (3, 7, Tile::WALLNATURE),
        (4, 7, Tile::WALLNATURE),
        (4, 8, Tile::DOOR),
        (6, 3, Tile::WALL),
        (5, 5, Tile::LADDER),
        (9, 1, Tile::COIN),
        (9, 2, Tile::COIN),
        (9, 3, Tile::COIN),
        (12, 1, Tile::WALLSPIKESL),
        (14, 1, Tile::WALLSPIKESR),
        (14, 4, Tile::WALLSPIKESB),
        (13, 4, Tile::WALLSPIKESLB),
        (15, 4, Tile::WALLSPIKESRB),
        (16, 1, Tile::WALLSPIKESLR),
        (17, 1, Tile::LADDER),
        (17, 2, Tile::LADDER),
        (17, 3, Tile::LADDER),
        (17, 4, Tile::LADDER),
        (16, 5, Tile::WALLSPIKESRB),
        (17, 8, Tile::WALLSPIKESLTB),
        (18, 8, Tile::WALLSPIKESTB),
        (19, 8, Tile::WALLSPIKESRTB),
        (17, 7, Tile::COIN),
        (19, 1, Tile::ARROWDOWN),
        (18, 1, Tile::ARROWLEFT),
        (17, 1, Tile::ARROWRIGHT),
        (16, 1, Tile::ARROWUP),
        (13, 5, Tile::EXIT)
    ]
}

/// The tiles placed on the showcase world after its bottom row and its wall column, in order.
pub open spec fn showcase_placements() -> Seq<(usize, usize, Tile)> {
    seq![
        (3, 1, Tile::WALL),
        (0, 1, Tile::PLAYERSPAWN),
        (3, 2, Tile::SPIKES),
        (4, 1, Tile::WALL),
        (4, 2, Tile::WALL),
        (5, 2, Tile::WALL),
        (5, 3, Tile::WALL),
        (6, 3, Tile::WALL),
        (7, 3, Tile::WALL),
        (8, 3, Tile::WALL),
        (9, 3, Tile::WALL),
        (10, 3, Tile::WALL),
        (10, 2, Tile::WALL),
        (7, 4, Tile::ARROWUP),
        (7, 1, Tile::ARROWLEFT),
        (7, 7, Tile::ARROWUP),
        (7, 5, Tile::WALL),
        (10, 5, Tile::WALL),
        (7, 6, Tile::LADDER),
        (7, 7, Tile::LADDER),
        (7, 8, Tile::LADDER),
        (7, 9, Tile::LADDER),
        (7, 10, Tile::LADDER),
        (6, 9, Tile::WALL),
        (5, 9, Tile::WALL),
        (4, 9, Tile::WALL),
        (3, 9, Tile::WALL),
        (3, 10, Tile::WALL),
        (3, 11, Tile::WALL),
        (3, 12, Tile::WALL),
        (3, 13, Tile::WALL),
        (3, 14, Tile::WALL),
        (4, 10, Tile::SPIKES),
        (5, 10, Tile::SPIKES),
        (6, 10, Tile::SPIKES),
        (8, 10, Tile::WALL),
        (8, 14, Tile::EXIT),
        (9, 10, Tile::WALL),
        (10, 10, Tile::WALL),
        (10, 11, Tile::WALL),
        (10, 12, Tile::WALL),
        (10, 14, Tile::WALL),
        (11, 14, Tile::WALL),
        (12, 14, Tile::WALL),
        (13, 13, Tile::EXIT),
        (12, 13, Tile::WALL),
        (14, 13, Tile::WALL),
        (15, 13, Tile::WALL),
        (16, 13, Tile::WALL),
        (17, 13, Tile::LADDER),
        (17, 12, Tile::LADDER),
        (17, 11, Tile::LADDER),
        (17, 10, Tile::LADDER),
        (17, 9, Tile::WALL),
        (16, 9, Tile::WALL),
        (15, 9, Tile::WALL),
        (14, 9, Tile::WALL),
        (18, 9, Tile::WALL),
        (12, 7, Tile::WALL),
        (16, 1, Tile::WALL),
        (17, 1, Tile::SPIKES),
        (18, 1, Tile::SPIKES),
        (27, 1, Tile::WALL),
        (28, 1, Tile::EXIT),
        (29, 1, Tile::WALL),
        (24, 5, Tile::WALL),
        (25, 5, Tile::WALL),
        (26, 5, Tile::WALL),
        (27, 5, Tile::WALL),
        (28, 5, Tile::WALL),
        (29, 5, Tile::WALL),
        (30, 5, Tile::WALL),
        (31, 5, Tile::WALL),
        (27, 4, Tile::WALL),
        (28, 4, Tile::WALL),
        (24, 4, Tile::COIN),
        (25, 4, Tile::COIN),
        (26, 4, Tile::COIN),
        (29, 4, Tile::COIN),
        (30, 4, Tile::COIN),
        (31, 4, Tile::COIN),
        (21, 8, Tile::WALL),
        (22, 8, Tile::WALL),
        (23, 8, Tile::WALL),
        (24, 8, Tile::WALL),
        (25, 8, Tile::WALL),
        (26, 8, Tile::WALL),
        (27, 8, Tile::WALL),
        (28, 8, Tile::WALL),
        (29, 8, Tile::WALL),
        (30, 8, Tile::WALL),
        (31, 8, Tile::WALL),
        (32, 8, Tile::WALL),
        (33, 8, Tile::WALL),
        (21, 9, Tile::ARROWLEFT),
        (24, 9, Tile::SPIKES),
        (26, 9, Tile::SPIKES),
        (30, 9, Tile::SPIKES),
        (33, 9, Tile::ARROWRIGHT),
        (23, 12, Tile::WALL),
        (23, 13, Tile::WALL),
        (24, 13, Tile::WALL),
        (25, 13, Tile::WALL),
        (25, 12, Tile::WALL),
        (26, 13, Tile::WALL),
        (27, 12, Tile::WALL),
        (27, 13, Tile::WALL),
        (28, 13, Tile::WALL),
        (29, 12, Tile::WALL),
        (29, 13, Tile::WALL),
        (30, 13, Tile::WALL),
        (31, 12, Tile::WALL),
        (31, 13, Tile::WALL)
    ]
}

/// The tile of the showcase world before the placements: wall on the bottom row and in column 19.
pub open spec fn showcase_base_tile(x: int, y: int) -> Tile {
    if y == 0 || x == 19 {
        Tile::WALL
    } else {
        Tile::AIR
    }
}

/// Place the tiles `ps` on the map in order.
fn apply_placements(world: &mut GameWorld, ps: &Vec<(usize, usize, Tile)>)
    requires
        forall|k: int| 0 <= k < ps@.len() ==> old(world).in_bounds(#[trigger] ps@[k].0 as int, ps@[k].1 as int),
    ensures
        old(world).same_but_tiles(*final(world)),
        final(world).spec_width() == old(world).spec_width(),
        final(world).spec_height() == old(world).spec_height(),
        forall|x: int, y: int| old(world).in_bounds(x, y) ==> (#[trigger] final(world).spec_tile(x, y)).eqv(
            placed_tile(ps@, x, y, old(world).spec_tile(x, y))),
        final(world).spec_spawn() == placed_spawn(ps@, old(world).spec_spawn()),
{
    let ghost start = *world;
    let mut i: usize = 0;
    while i < ps.len()
        invariant
            i <= ps@.len(),
            forall|k: int| 0 <= k < ps@.len() ==> start.in_bounds(#[trigger] ps@[k].0 as int, ps@[k].1 as int),
            start.same_but_tiles(*world),
            world.spec_width() == start.spec_width(),
            world.spec_height() == start.spec_height(),
            forall|x: int, y: int| start.in_bounds(x, y) ==> (#[trigger] world.spec_tile(x, y)).eqv(
                placed_tile(ps@.take(i as int), x, y, start.spec_tile(x, y))),
            world.spec_spawn() == placed_spawn(ps@.take(i as int), start.spec_spawn()),
        decreases ps@.len() - i,
    {
        let x = ps[i].0;
        let y = ps[i].1;
        let t = ps[i].2.clone();
        proof {
            assert(ps@.take(i + 1).drop_last() =~= ps@.take(i as int));
            assert(ps@[i as int].2.eqv(t) ==> ps@[i as int].2.spec_kind() == t.spec_kind());
        }
        world.set(x, y, t);
        i += 1;
    }
    assert(ps@.take(ps@.len() as int) =~= ps@);
}

impl GameWorld {
    ///
    /// An example world that is meant to showcase all available tiles in the game for debugging.
    pub fn exampleworld() -> (r: Self)
        ensures
            r.spec_width() == 24,
            r.spec_height() == 10,
            r.spec_name() == "Example World"@,
            r.spec_author() == "Debugger"@,
            forall|x: int, y: int| r.in_bounds(x, y) ==> (#[trigger] r.spec_tile(x, y)).eqv(
                placed_tile(example_placements(), x, y, border_tile(24, 10, x, y))),
            r.spec_spawn() == placed_spawn(example_placements(), (1usize, 1usize)),
            r.spec_hash() == Seq::new(32, |i: int| 0u8),
            r.spec_filename() is None,
            r.spec_clean(),
            r.spec_messages() == Seq::<Seq<char>>::empty(),
            r.spec_forced_tileset() is None,
    {
        let columns: usize = 24; // Number of columns in the game board
        let rows: usize = 10; // Number of rows in the game board
        let mut world: GameWorld = map_with_border(columns, rows);
        world.set_name("Example World").set_author("Debugger");
        let placements: Vec<(usize, usize, Tile)> = vec![
            (2, 1, Tile::WALL),
            (1, 1, Tile::WALL),
            (1, 2, Tile::PLAYERSPAWN),
            (3, 1, Tile::SPIKES),
            (2, 2, Tile::WALL),
            (3, 3, Tile::SPIKESSLOPED),
            (4, 3, Tile::WALLCOBBLE),
            (4, 2, Tile::WALLCHISELED),
            (4, 1, Tile::WALLSMOOTH),
            (4, 0, Tile::WALLSMOOTH),
            (5, 1, Tile::SPIKES),
            (6, 1, Tile::SPIKESALT),
            (8, 2, Tile::WALLSPIKESRLTB),
            (1, 4, Tile::WALL),
            (1, 8, Tile::KEY),
            (2, 6, Tile::WALLNATURE),
            (3, 7, Tile::WALLNATURE),
            (4, 7, Tile::WALLNATURE),
            (4, 8, Tile::DOOR),
            (6, 3, Tile::WALL),
            (5, 5, Tile::LADDER),
            (9, 1, Tile::COIN),
            (9, 2, Tile::COIN),
            (9, 3, Tile::COIN),
            (12, 1, Tile::WALLSPIKESL),
            (14, 1, Tile::WALLSPIKESR),
            (14, 4, Tile::WALLSPIKESB),
            (13, 4, Tile::WALLSPIKESLB),
            (15, 4, Tile::WALLSPIKESRB),
            (16, 1, Tile::WALLSPIKESLR),
            (17, 1, Tile::LADDER),
            (17, 2, Tile::LADDER),
            (17, 3, Tile::LADDER),
            (17, 4, Tile::LADDER),
            (16, 5, Tile::WALLSPIKESRB),
            (17, 8, Tile::WALLSPIKESLTB),
            (18, 8, Tile::WALLSPIKESTB),
            (19, 8, Tile::WALLSPIKESRTB),
            (17, 7, Tile::COIN),
            (19, 1, Tile::ARROWDOWN),
            (18, 1, Tile::ARROWLEFT),
            (17, 1, Tile::ARROWRIGHT),
            (16, 1, Tile::ARROWUP),
            (13, 5, Tile::EXIT)
        ];
        assert(placements@ =~= example_placements());
        apply_placements(&mut world, &placements);
        world
    }

    ///
    /// The world that is shown in the thumbnail of Space Exodus for Psion handhelds at https://web.archive.org/web/20010609173820/http://www.davidsansome.co.uk/pages/psion/exodus/index.htm
    pub fn showcaseworld() -> (r: Self)
        ensures
            r.spec_width() == 35,
            r.spec_height() == 15,
            r.spec_name() == "Showcase World"@,
            r.spec_author() == "Debugger"@,
            forall|x: int, y: int| r.in_bounds(x, y) ==> (#[trigger] r.spec_tile(x, y)).eqv(
                placed_tile(showcase_placements(), x, y, showcase_base_tile(x, y))),
            r.spec_spawn() == placed_spawn(showcase_placements(), (1usize, 1usize)),
            r.spec_hash() == Seq::new(32, |i: int| 0u8),
            r.spec_filename() is None,
            r.spec_clean(),
            r.spec_messages() == Seq::<Seq<char>>::empty(),
            r.spec_forced_tileset() is None,
    {
        let columns: usize = 35;
        let rows: usize = 15;
        let mut world: GameWorld = GameWorld::new(columns, rows);
        world.set_name("Showcase World").set_author("Debugger");
        let ghost start = world;
        let mut c: usize = 0;
        while c < columns
            invariant
                c <= columns,
                columns == 35,
                world.spec_width() == 35,
                world.spec_height() == 15,
                world.spec_spawn() == (1usize, 1usize),
                start.same_but_tiles(world),
                forall|x: int, y: int| world.in_bounds(x, y) ==> #[trigger] world.spec_tile(x, y) == (
                    if y == 0 && x < c { Tile::WALL } else { Tile::AIR }),
            decreases columns - c,
        {
            world.set(c, 0, Tile::WALL);
            c += 1;
        }
        let mut r: usize = 0;
        while r < rows
            invariant
                r <= rows,
                rows == 15,
                world.spec_width() == 35,
                world.spec_height() == 15,
                world.spec_spawn() == (1usize, 1usize),
                start.same_but_tiles(world),
                forall|x: int, y: int| world.in_bounds(x, y) ==> #[trigger] world.spec_tile(x, y) == (
                    if y == 0 || (x == 19 && y < r) { Tile::WALL } else { Tile::AIR }),
            decreases rows - r,
        {
            world.set(19, r, Tile::WALL);
            r += 1;
        }
        let placements: Vec<(usize, usize, Tile)> = vec![
            (3, 1, Tile::WALL),
            (0, 1, Tile::PLAYERSPAWN),
            (3, 2, Tile::SPIKES),
            (4, 1, Tile::WALL),
            (4, 2, Tile::WALL),
            (5, 2, Tile::WALL),
            (5, 3, Tile::WALL),
            (6, 3, Tile::WALL),
            (7, 3, Tile::WALL),
            (8, 3, Tile::WALL),
            (9, 3, Tile::WALL),
            (10, 3, Tile::WALL),
            (10, 2, Tile::WALL),
            (7, 4, Tile::ARROWUP),
            (7, 1, Tile::ARROWLEFT),
            (7, 7, Tile::ARROWUP),
            (7, 5, Tile::WALL),
            (10, 5, Tile::WALL),
            (7, 6, Tile::LADDER),
            (7, 7, Tile::LADDER),
            (7, 8, Tile::LADDER),
            (7, 9, Tile::LADDER),
            (7, 10, Tile::LADDER),
            (6, 9, Tile::WALL),
            (5, 9, Tile::WALL),
            (4, 9, Tile::WALL),
            (3, 9, Tile::WALL),
            (3, 10, Tile::WALL),
            (3, 11, Tile::WALL),
            (3, 12, Tile::WALL),
            (3, 13, Tile::WALL),
            (3, 14, Tile::WALL),
            (4, 10, Tile::SPIKES),
            (5, 10, Tile::SPIKES),
            (6, 10, Tile::SPIKES),
            (8, 10, Tile::WALL),
            (8, 14, Tile::EXIT),
            (9, 10, Tile::WALL),
            (10, 10, Tile::WALL),
            (10, 11, Tile::WALL),
            (10, 12, Tile::WALL),
            (10, 14, Tile::WALL),
            (11, 14, Tile::WALL),
            (12, 14, Tile::WALL),
            (13, 13, Tile::EXIT),
            (12, 13, Tile::WALL),
            (14, 13, Tile::WALL),
            (15, 13, Tile::WALL),
            (16, 13, Tile::WALL),
            (17, 13, Tile::LADDER),
            (17, 12, Tile::LADDER),
            (17, 11, Tile::LADDER),
            (17, 10, Tile::LADDER),
            (17, 9, Tile::WALL),
            (16, 9, Tile::WALL),
            (15, 9, Tile::WALL),
            (14, 9, Tile::WALL),
            (18, 9, Tile::WALL),
            (12, 7, Tile::WALL),
            (16, 1, Tile::WALL),
            (17, 1, Tile::SPIKES),
            (18, 1, Tile::SPIKES),
            (27, 1, Tile::WALL),
            (28, 1, Tile::EXIT),
            (29, 1, Tile::WALL),
            (24, 5, Tile::WALL),
            (25, 5, Tile::WALL),
            (26, 5, Tile::WALL),
            (27, 5, Tile::WALL),
            (28, 5, Tile::WALL),
            (29, 5, Tile::WALL),
            (30, 5, Tile::WALL),
            (31, 5, Tile::WALL),
            (27, 4, Tile::WALL),
            (28, 4, Tile::WALL),
            (24, 4, Tile::COIN),
            (25, 4, Tile::COIN),
            (26, 4, Tile::COIN),
            (29, 4, Tile::COIN),
            (30, 4, Tile::COIN),
            (31, 4, Tile::COIN),
            (21, 8, Tile::WALL),
            (22, 8, Tile::WALL),
            (23, 8, Tile::WALL),
            (24, 8, Tile::WALL),
            (25, 8, Tile::WALL),
            (26, 8, Tile::WALL),
            (27, 8, Tile::WALL),
            (28, 8, Tile::WALL),
            (29, 8, Tile::WALL),
            (30, 8, Tile::WALL),
            (31, 8, Tile::WALL),
            (32, 8, Tile::WALL),
            (33, 8, Tile::WALL),
            (21, 9, Tile::ARROWLEFT),
            (24, 9, Tile::SPIKES),
            (26, 9, Tile::SPIKES),
            (30, 9, Tile::SPIKES),
            (33, 9, Tile::ARROWRIGHT),
            (23, 12, Tile::WALL),
            (23, 13, Tile::WALL),
            (24, 13, Tile::WALL),
            (25, 13, Tile::WALL),
            (25, 12, Tile::WALL),
            (26, 13, Tile::WALL),
            (27, 12, Tile::WALL),
            (27, 13, Tile::WALL),
            (28, 13, Tile::WALL),
            (29, 12, Tile::WALL),
            (29, 13, Tile::WALL),
            (30, 13, Tile::WALL),
            (31, 12, Tile::WALL),
            (31, 13, Tile::WALL)
        ];
        assert(placements@ =~= showcase_placements());
        apply_placements(&mut world, &placements);
        world
    }
}

} // verus!
