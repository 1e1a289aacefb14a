use crate::tiles::Tile;
use crate::tiles::Tile::WALL;
use crate::world::GameWorld;
use vstd::prelude::*;

verus! {

/// The tile of a map with a border at `(x, y)`: wall on the outermost rows and columns, and
/// everywhere on maps that are at most two tiles wide or high; air elsewhere.
pub open spec fn border_tile(width: int, height: int, x: int, y: int) -> Tile {
    if width <= 2 || height <= 2 || x == 0 || y == 0 || x == width - 1 || y == height - 1 {
        Tile::WALL
    } else {
        Tile::AIR
    }
}

/// A new map surrounded by walls.
pub fn map_with_border(width: usize, height: usize) -> (r: GameWorld)
    requires
        width > 0,
        height > 0,
    ensures
        r.spec_width() == width,
        r.spec_height() == height,
        forall|x: int, y: int| r.in_bounds(x, y) ==> #[trigger] r.spec_tile(x, y) == border_tile(width as int, height as int, x, y),
        r.spec_spawn() == (1usize, 1usize),
        r.spec_name() == "New World"@,
        r.spec_author() == Seq::<char>::empty(),
        r.spec_hash() == Seq::new(32, |i: int| 0u8),
        r.spec_filename() is None,
        r.spec_clean(),
        r.spec_messages() == Seq::<Seq<char>>::empty(),
        r.spec_forced_tileset() is None,
{
    let mut ret: GameWorld = GameWorld::new(width, height);
    if width <= 2 || height <= 2 {
        ret.fill(&WALL);
        return ret;
    }
    let ghost start = ret;
    let mut i: usize = 0;
    while i < width
        invariant
            2 < width,
            2 < height,
            i <= width,
            ret.spec_width() == width,
            ret.spec_height() == height,
            ret.spec_spawn() == (1usize, 1usize),
            start.same_but_tiles(ret),
            forall|x: int, y: int| ret.in_bounds(x, y) ==> #[trigger] ret.spec_tile(x, y) == (
                if x < i && (y == 0 || y == height - 1) { Tile::WALL } else { Tile::AIR }),
        decreases width - i,
    {
        ret.set(i, 0, WALL);
        ret.set(i, height - 1, WALL);
        i += 1;
    }
    let mut i: usize = 1;
    while i < height - 1
        invariant
            2 < width,
            2 < height,
            1 <= i <= height - 1,
            ret.spec_width() == width,
            ret.spec_height() == height,
            ret.spec_spawn() == (1usize, 1usize),
            start.same_but_tiles(ret),
            forall|x: int, y: int| ret.in_bounds(x, y) ==> #[trigger] ret.spec_tile(x, y) == (
                if y == 0 || y == height - 1 || ((x == 0 || x == width - 1) && y < i) { Tile::WALL } else { Tile::AIR }),
        decreases height - i,
    {
        ret.set(0, i, WALL);
        ret.set(width - 1, i, WALL);
        i += 1;
    }
    ret
}

} // verus!
