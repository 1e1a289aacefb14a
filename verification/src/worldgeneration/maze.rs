//! Mazes generated with Prim's algorithm from a seeded random number generator.
use crate::tiles::Tile;
use crate::world::io::lemma_row_major;
use crate::world::GameWorld;
use crate::worldgeneration::{fresh_but_tiles, WorldGenerationAlgorithm, WorldGenerationError};
use rand::prelude::IndexedRandom;
use rand::Rng;
use rand_chacha::rand_core::SeedableRng;
use rand_chacha::ChaCha20Rng;
use vstd::prelude::*;
use vstd::set_lib::{lemma_int_range, lemma_len_subset, set_int_range};

verus! {

#[verifier::external_type_specification]
#[verifier::external_body]
pub struct ExChaCha20Rng(rand_chacha::ChaCha20Rng);

/// `ChaCha20Rng::from_seed`: a random number generator that starts from the given seed. The
/// generator is opaque here; nothing is stated of it.
#[verifier::external_body]
fn rng_from_seed(seed: [u8; 32]) -> (r: ChaCha20Rng)
{
    ChaCha20Rng::from_seed(seed)
}

/// `Rng::random_range(0..n)`: a number below `n`, which the generator's state decides. It
/// panics on an empty range, so `n` must not be zero.
#[verifier::external_body]
fn random_below(rng: &mut ChaCha20Rng, n: usize) -> (r: usize)
    requires
        n > 0,
    ensures
        r < n,
{
    rng.random_range(0..n)
}

/// `IndexedRandom::choose` on the cells: one of them, which the generator's state decides, or
/// `None` when there are none.
#[verifier::external_body]
fn choose_cell(rng: &mut ChaCha20Rng, cells: &Vec<(usize, usize)>) -> (r: Option<(usize, usize)>)
    ensures
        r is None <==> cells@.len() == 0,
        r matches Some(c) ==> cells@.contains(c),
{
    cells.as_slice().choose(rng).copied()
}

/// Generates mazes: passages of air between walls of one tile.
pub struct Maze {
    pub width: u32,
    pub height: u32,
    pub color: Tile,
    pub seed: u32,
}

/// Every tile of `world` is air or the wall tile.
pub open spec fn air_or(world: GameWorld, color: Tile) -> bool {
    forall|x: int, y: int|
        world.in_bounds(x, y) ==> (#[trigger] world.spec_tile(x, y) == Tile::AIR || world.spec_tile(x, y).eqv(color))
}

/// The shape of a maze grown from the cell at (`sx`, `sy`): every tile whose column and row
/// both lie an even number of cells away from it is air, a cell of the maze, and every tile
/// whose column and row both lie an odd number of cells away from it is the wall tile.
pub open spec fn maze_shape(world: GameWorld, color: Tile, sx: int, sy: int) -> bool {
    &&& world.in_bounds(sx, sy)
    &&& forall|x: int, y: int|
        world.in_bounds(x, y) && (x - sx) % 2 == 0 && (y - sy) % 2 == 0 ==> #[trigger] world.spec_tile(x, y) == Tile::AIR
    &&& forall|x: int, y: int|
        world.in_bounds(x, y) && (x - sx) % 2 == 1 && (y - sy) % 2 == 1 ==> #[trigger] world.spec_tile(x, y).eqv(color)
}

/// A cell whose column and row both lie an even number of cells away from (`sx`, `sy`).
pub open spec fn even_from(c: (usize, usize), sx: int, sy: int) -> bool {
    (c.0 - sx) % 2 == 0 && (c.1 - sy) % 2 == 0
}

/// Each air cell an even number of columns and rows away from (`sx`, `sy`) has every cell two
/// apart from it air, or waiting in `frontier`.
spec fn frontier_closed(world: GameWorld, frontier: Seq<(usize, usize)>, sx: int, sy: int) -> bool {
    forall|c: (usize, usize), n: (usize, usize)|
        #![trigger two_apart(n, c)]
        world.in_bounds(c.0 as int, c.1 as int) && world.in_bounds(n.0 as int, n.1 as int) && even_from(c, sx, sy)
            && world.spec_tile(c.0 as int, c.1 as int) == Tile::AIR && two_apart(n, c) ==> world.spec_tile(
            n.0 as int,
            n.1 as int,
        ) == Tile::AIR || frontier.contains(n)
}

/// Where no cell waits any more, every cell an even number of columns and rows away from an
/// air cell (`sx`, `sy`) is air: it is reached two cells at a time from there.
proof fn lemma_every_cell_reached(world: GameWorld, sx: int, sy: int, x: int, y: int)
    requires
        frontier_closed(world, Seq::empty(), sx, sy),
        world.spec_width() <= u32::MAX,
        world.spec_height() <= u32::MAX,
        world.in_bounds(sx, sy),
        world.spec_tile(sx, sy) == Tile::AIR,
        world.in_bounds(x, y),
        (x - sx) % 2 == 0,
        (y - sy) % 2 == 0,
    ensures
        world.spec_tile(x, y) == Tile::AIR,
    decreases (if x >= sx { x - sx } else { sx - x }) + (if y >= sy { y - sy } else { sy - y }),
{
    let c = (x as usize, y as usize);
    assert(c.0 as int == x && c.1 as int == y);
    let e = Seq::<(usize, usize)>::empty();
    assert(!e.contains(c));
    if x > sx {
        lemma_every_cell_reached(world, sx, sy, x - 2, y);
        let p = ((x - 2) as usize, y as usize);
        assert(p.0 as int == x - 2 && p.1 as int == y);
        assert(two_apart(c, p));
    } else if x < sx {
        lemma_every_cell_reached(world, sx, sy, x + 2, y);
        let p = ((x + 2) as usize, y as usize);
        assert(p.0 as int == x + 2 && p.1 as int == y);
        assert(two_apart(c, p));
    } else if y > sy {
        lemma_every_cell_reached(world, sx, sy, x, y - 2);
        let p = (x as usize, (y - 2) as usize);
        assert(p.0 as int == x && p.1 as int == y - 2);
        assert(two_apart(c, p));
    } else if y < sy {
        lemma_every_cell_reached(world, sx, sy, x, y + 2);
        let p = (x as usize, (y + 2) as usize);
        assert(p.0 as int == x && p.1 as int == y + 2);
        assert(two_apart(c, p));
    }
}

/// The positions, row by row, of the air tiles of `m`.
spec fn air_keys(m: GameWorld) -> Set<int> {
    Set::new(
        |k: int|
            0 <= k < m.spec_width() * m.spec_height() && m.spec_tile(k % (m.spec_width() as int), k / (m.spec_width() as int))
                == Tile::AIR,
    )
}

/// Turning tiles into air, and a wall tile into air in particular, lets the air grow.
proof fn lemma_air_grows(before: GameWorld, after: GameWorld, x: int, y: int)
    requires
        before.spec_width() == after.spec_width(),
        before.spec_height() == after.spec_height(),
        before.spec_width() > 0,
        forall|a: int, b: int|
            before.in_bounds(a, b) ==> #[trigger] after.spec_tile(a, b) == before.spec_tile(a, b) || after.spec_tile(a, b)
                == Tile::AIR,
        before.in_bounds(x, y) ==> after.spec_tile(x, y) == Tile::AIR,
    ensures
        air_keys(before).finite(),
        air_keys(after).finite(),
        air_keys(after).len() <= before.spec_width() * before.spec_height(),
        air_keys(before).len() <= air_keys(after).len(),
        before.in_bounds(x, y) && before.spec_tile(x, y) != Tile::AIR ==> air_keys(before).len() < air_keys(after).len(),
{
    let w = before.spec_width() as int;
    let h = before.spec_height() as int;
    assert(0 <= w * h) by (nonlinear_arith)
        requires
            0 < w,
            0 <= h,
    ;
    lemma_int_range(0, w * h);
    let range = set_int_range(0, w * h);
    assert(air_keys(before).subset_of(range));
    assert(air_keys(after).subset_of(range));
    lemma_len_subset(air_keys(before), range);
    lemma_len_subset(air_keys(after), range);
    assert forall|k: int| #[trigger] air_keys(before).contains(k) implies air_keys(after).contains(k) by {
        vstd::arithmetic::div_mod::lemma_mod_pos_bound(k, w);
        vstd::arithmetic::div_mod::lemma_multiply_divide_lt(k, w, h);
        vstd::arithmetic::div_mod::lemma_div_pos_is_pos(k, w);
        assert(before.in_bounds(k % w, k / w));
    }
    lemma_len_subset(air_keys(before), air_keys(after));
    if before.in_bounds(x, y) && before.spec_tile(x, y) != Tile::AIR {
        lemma_row_major(x, y, w, h);
        let k = y * w + x;
        assert(!air_keys(before).contains(k));
        assert(air_keys(after).contains(k));
        assert(air_keys(before).insert(k).subset_of(air_keys(after)));
        lemma_len_subset(air_keys(before).insert(k), air_keys(after));
    }
}

/// (`a`, `b`) lies on the straight line from `c1` to `c2`, both ends included.
pub open spec fn between(a: int, b: int, c1: (usize, usize), c2: (usize, usize)) -> bool {
    ||| b == c1.1 && b == c2.1 && ((c1.0 <= a <= c2.0) || (c2.0 <= a <= c1.0))
    ||| a == c1.0 && a == c2.0 && ((c1.1 <= b <= c2.1) || (c2.1 <= b <= c1.1))
}

/// `c` lies two cells away from `cell`, straight to the left, right, top or bottom.
pub open spec fn two_apart(c: (usize, usize), cell: (usize, usize)) -> bool {
    ||| c.1 == cell.1 && (c.0 == cell.0 + 2 || c.0 + 2 == cell.0)
    ||| c.0 == cell.0 && (c.1 == cell.1 + 2 || c.1 + 2 == cell.1)
}

impl Maze {
    /// What generating gives: an error for a width below two, else for a height below two, else
    /// a new map of the given size whose tiles are air or the wall tile.
    pub open spec fn generated(self, r: Result<GameWorld, WorldGenerationError>) -> bool {
        if self.width <= 1 {
            r matches Err(WorldGenerationError::InvalidWidth { width }) && width == self.width
        } else if self.height <= 1 {
            r matches Err(WorldGenerationError::InvalidHeight { height }) && height == self.height
        } else {
            r matches Ok(world) && fresh_but_tiles(world, self.width, self.height) && air_or(world, self.color)
                && exists|sx: int, sy: int| maze_shape(world, self.color, sx, sy)
        }
    }

    pub fn generate(&self) -> (r: Result<GameWorld, WorldGenerationError>)
        ensures
            self.generated(r),
    {
        if self.width <= 1 {
            Err(WorldGenerationError::InvalidWidth { width: self.width })
        } else if self.height <= 1 {
            Err(WorldGenerationError::InvalidHeight { height: self.height })
        } else {
            Ok(self.generate_validated())
        }
    }

    /// Generate a new maze map using Prim's Algorithm.
    /// The algorithm works as follows:
    /// 1. The maze consists of 2-dimensional grid-like cells that represent either WALL or AIR.
    /// 2. Start with a grid full of WALL tiles.
    /// 3. Pick a random cell, set it to AIR and compute its frontier cells.
    ///    A frontier cell of a cell is a cell with distance 2 in state WALL.
    /// 4. While the list of frontier cells is not empty:
    ///    1. Pick a random frontier cell from the list of frontier cells.
    ///    2. Let neighbors(frontierCell) = All cells in distance 2 in state AIR.
    ///    3. Pick a random neighbor and connect the frontier cell with the neighbor
    ///       by setting the cell in-between to state Passage.
    ///    4. Compute the frontier cells of the chosen frontier cell and add them to the
    ///       frontier list.
    ///    5. Remove the chosen frontier cell from the list of frontier cells.
    fn generate_validated(&self) -> (r: GameWorld)
        requires
            self.width >= 2,
            self.height >= 2,
        ensures
            fresh_but_tiles(r, self.width, self.height),
            air_or(r, self.color),
            exists|sx: int, sy: int| maze_shape(r, self.color, sx, sy),
    {
        let w = self.width as usize;
        let h = self.height as usize;
        let mut frontier_cells: Vec<(usize, usize)> = Vec::new();
        let mut ret = GameWorld::new(w, h);
        // Start with a maze that consists only of WALL
        ret.fill(&self.color);
        let b0 = ((self.seed & 0xff000000) >> 24) as u8;
        let b1 = ((self.seed & 0x00ff0000) >> 16) as u8;
        let b2 = ((self.seed & 0x0000ff00) >> 8) as u8;
        let b3 = (self.seed & 0x000000ff) as u8;
        let seed: [u8; 32] = [
            b0, b1, b2, b3, b0, b1, b2, b3, b0, b1, b2, b3, b0, b1, b2, b3, b0, b1, b2, b3, b0, b1, b2, b3, b0, b1,
            b2, b3, b0, b1, b2, b3,
        ];
        let mut rng = rng_from_seed(seed);
        let start_x = random_below(&mut rng, w);
        let start_y = random_below(&mut rng, h);
        frontier_cells.push((start_x, start_y));
        assert(frontier_cells@[0] == (start_x, start_y));
        let ghost sx = start_x as int;
        let ghost sy = start_y as int;
        proof {
            lemma_air_grows(ret, ret, -1, -1);
            assert forall|c: (usize, usize), n: (usize, usize)|
                #![trigger two_apart(n, c)]
                ret.in_bounds(c.0 as int, c.1 as int) && ret.in_bounds(n.0 as int, n.1 as int) && even_from(c, sx, sy)
                    && ret.spec_tile(c.0 as int, c.1 as int) == Tile::AIR && two_apart(n, c) implies ret.spec_tile(
                n.0 as int,
                n.1 as int,
            ) == Tile::AIR || frontier_cells@.contains(n) by {
                assert(ret.spec_tile(c.0 as int, c.1 as int).eqv(self.color));
                assert(ret.spec_tile(n.0 as int, n.1 as int).eqv(self.color));
            }
        }
        while frontier_cells.len() > 0
            invariant
                w == self.width,
                h == self.height,
                w >= 2,
                h >= 2,
                fresh_but_tiles(ret, self.width, self.height),
                air_or(ret, self.color),
                air_keys(ret).finite(),
                air_keys(ret).len() <= w * h,
                forall|i: int| 0 <= i < frontier_cells@.len() ==> ret.in_bounds(#[trigger] frontier_cells@[i].0 as int, frontier_cells@[i].1 as int),
                forall|i: int| 0 <= i < frontier_cells@.len() ==> even_from(#[trigger] frontier_cells@[i], sx, sy),
                ret.in_bounds(sx, sy),
                ret.spec_tile(sx, sy) == Tile::AIR || frontier_cells@.contains((sx as usize, sy as usize)),
                sx == start_x,
                sy == start_y,
                forall|x: int, y: int|
                    ret.in_bounds(x, y) && (x - sx) % 2 == 1 && (y - sy) % 2 == 1 ==> #[trigger] ret.spec_tile(x, y).eqv(self.color),
                frontier_closed(ret, frontier_cells@, sx, sy),
            decreases w * h - air_keys(ret).len(), frontier_cells@.len(),
        {
            // Pop a random frontier cell
            let remove_ind = random_below(&mut rng, frontier_cells.len());
            let ghost old_frontier = frontier_cells@;
            let current = frontier_cells.remove(remove_ind);
            proof {
                assert(current == old_frontier[remove_ind as int]);
                assert(even_from(old_frontier[remove_ind as int], sx, sy));
                assert forall|i: int| 0 <= i < frontier_cells@.len() implies even_from(#[trigger] frontier_cells@[i], sx, sy) && ret.in_bounds(
                    frontier_cells@[i].0 as int,
                    frontier_cells@[i].1 as int,
                ) by {
                    if i < remove_ind {
                        assert(frontier_cells@[i] == old_frontier[i]);
                    } else {
                        assert(frontier_cells@[i] == old_frontier[i + 1]);
                    }
                }
                if ret.spec_tile(sx, sy) != Tile::AIR && current != (sx as usize, sy as usize) {
                    let j = choose|j: int| 0 <= j < old_frontier.len() && old_frontier[j] == (sx as usize, sy as usize);
                    if j < remove_ind {
                        assert(frontier_cells@[j] == old_frontier[j]);
                    } else {
                        assert(frontier_cells@[j - 1] == old_frontier[j]);
                    }
                }
            }
            proof {
                assert forall|c: (usize, usize), n: (usize, usize)|
                    #![trigger two_apart(n, c)]
                    ret.in_bounds(c.0 as int, c.1 as int) && ret.in_bounds(n.0 as int, n.1 as int) && even_from(c, sx, sy)
                        && ret.spec_tile(c.0 as int, c.1 as int) == Tile::AIR && two_apart(n, c) && n != current implies ret.spec_tile(
                    n.0 as int,
                    n.1 as int,
                ) == Tile::AIR || frontier_cells@.contains(n) by {
                    if ret.spec_tile(n.0 as int, n.1 as int) != Tile::AIR {
                        let j = choose|j: int| 0 <= j < old_frontier.len() && old_frontier[j] == n;
                        if j < remove_ind {
                            assert(frontier_cells@[j] == old_frontier[j]);
                        } else {
                            assert(frontier_cells@[j - 1] == old_frontier[j]);
                        }
                    }
                }
            }
            // Check if the cell is in fact unvisited and continue if it is visited
            if ret.tile_at(current.0, current.1).is_air() {
                continue;
            }
            let ghost before = ret;
            ret.set(current.0, current.1, Tile::AIR);
            // Push all possible frontier cells
            let ghost kept = frontier_cells@;
            let mut new_cells = self.find_neighbor_cells(&ret, current, false);
            let ghost added = new_cells@;
            frontier_cells.append(&mut new_cells);
            proof {
                assert forall|i: int| 0 <= i < frontier_cells@.len() implies even_from(#[trigger] frontier_cells@[i], sx, sy) by {
                    if i >= kept.len() {
                        assert(frontier_cells@[i] == added[i - kept.len()]);
                        assert(two_apart(added[i - kept.len()], current));
                    } else {
                        assert(frontier_cells@[i] == kept[i]);
                    }
                }
                if ret.spec_tile(sx, sy) != Tile::AIR {
                    let j = choose|j: int| 0 <= j < kept.len() && kept[j] == (sx as usize, sy as usize);
                    assert(frontier_cells@[j] == kept[j]);
                }
                assert forall|c: (usize, usize), n: (usize, usize)|
                    #![trigger two_apart(n, c)]
                    ret.in_bounds(c.0 as int, c.1 as int) && ret.in_bounds(n.0 as int, n.1 as int) && even_from(c, sx, sy)
                        && ret.spec_tile(c.0 as int, c.1 as int) == Tile::AIR && two_apart(n, c) implies ret.spec_tile(
                    n.0 as int,
                    n.1 as int,
                ) == Tile::AIR || frontier_cells@.contains(n) by {
                    if ret.spec_tile(n.0 as int, n.1 as int) != Tile::AIR {
                        if c == current {
                            assert(added.contains(n));
                            let j = choose|j: int| 0 <= j < added.len() && added[j] == n;
                            assert(frontier_cells@[kept.len() + j] == added[j]);
                        } else {
                            assert(before.spec_tile(c.0 as int, c.1 as int) == Tile::AIR);
                            assert(n != current);
                            assert(before.spec_tile(n.0 as int, n.1 as int) != Tile::AIR);
                            assert(kept.contains(n));
                            let j = choose|j: int| 0 <= j < kept.len() && kept[j] == n;
                            assert(frontier_cells@[j] == kept[j]);
                        }
                    }
                }
            }
            let ghost middle = ret;
            // Select a random wall to an already-visited cell to remove
            let connection_walls = self.find_neighbor_cells(&ret, current, true);
            match choose_cell(&mut rng, &connection_walls) {
                Some(wall_to_connect) => {
                    proof {
                        let j = choose|j: int| 0 <= j < connection_walls@.len() && connection_walls@[j] == wall_to_connect;
                        assert(two_apart(connection_walls@[j], current));
                    }
                    self.connect_wall(&mut ret, &wall_to_connect, current);
                    proof {
                        assert(even_from(wall_to_connect, sx, sy));
                        assert forall|x: int, y: int|
                            ret.in_bounds(x, y) && (x - sx) % 2 == 1 && (y - sy) % 2 == 1 implies #[trigger] ret.spec_tile(x, y).eqv(
                                self.color,
                            ) by {
                            assert(middle.spec_tile(x, y).eqv(self.color));
                        }
                        assert(middle.spec_tile(wall_to_connect.0 as int, wall_to_connect.1 as int) == Tile::AIR);
                        assert forall|c: (usize, usize), n: (usize, usize)|
                            #![trigger two_apart(n, c)]
                            ret.in_bounds(c.0 as int, c.1 as int) && ret.in_bounds(n.0 as int, n.1 as int) && even_from(
                                c,
                                sx,
                                sy,
                            ) && ret.spec_tile(c.0 as int, c.1 as int) == Tile::AIR && two_apart(n, c) implies ret.spec_tile(
                            n.0 as int,
                            n.1 as int,
                        ) == Tile::AIR || frontier_cells@.contains(n) by {
                            if middle.spec_tile(c.0 as int, c.1 as int) != Tile::AIR {
                                assert(between(c.0 as int, c.1 as int, wall_to_connect, current));
                                assert(c == wall_to_connect || c == current);
                            }
                            assert(middle.spec_tile(n.0 as int, n.1 as int) == Tile::AIR ==> ret.spec_tile(n.0 as int, n.1 as int) == Tile::AIR);
                        }
                    }
                },
                None => {},
            }
            proof {
                lemma_air_grows(before, ret, current.0 as int, current.1 as int);
            }
        }
        proof {
            assert(frontier_cells@ =~= Seq::<(usize, usize)>::empty());
            assert forall|x: int, y: int|
                ret.in_bounds(x, y) && (x - sx) % 2 == 0 && (y - sy) % 2 == 0 implies #[trigger] ret.spec_tile(x, y) == Tile::AIR by {
                lemma_every_cell_reached(ret, sx, sy, x, y);
            }
        }
        assert(maze_shape(ret, self.color, sx, sy));
        ret
    }

    /// The cells two cells away from `cell`, to the right, left, top and bottom, that lie on
    /// the map and are air (for `matches_air`) or are not.
    fn find_neighbor_cells(&self, map: &GameWorld, cell: (usize, usize), matches_air: bool) -> (r: Vec<(usize, usize)>)
        requires
            map.in_bounds(cell.0 as int, cell.1 as int),
        ensures
            forall|i: int|
                0 <= i < r@.len() ==> map.in_bounds(#[trigger] r@[i].0 as int, r@[i].1 as int) && two_apart(r@[i], cell)
                    && (map.spec_tile(r@[i].0 as int, r@[i].1 as int) == Tile::AIR) == matches_air,
            forall|c: (usize, usize)|
                #![trigger two_apart(c, cell)]
                map.in_bounds(c.0 as int, c.1 as int) && two_apart(c, cell) && (map.spec_tile(c.0 as int, c.1 as int)
                    == Tile::AIR) == matches_air ==> r@.contains(c),
    {
        let width = map.width();
        let height = map.height();
        let mut candidates: Vec<(usize, usize)> = Vec::new();
        if width >= 2 && cell.0 < width - 2 {
            candidates.push((cell.0 + 2, cell.1));
        }
        if cell.0 >= 2 {
            candidates.push((cell.0 - 2, cell.1));
        }
        if height >= 2 && cell.1 < height - 2 {
            candidates.push((cell.0, cell.1 + 2));
        }
        if cell.1 >= 2 {
            candidates.push((cell.0, cell.1 - 2));
        }
        assert forall|c: (usize, usize)|
            #![trigger two_apart(c, cell)]
            map.in_bounds(c.0 as int, c.1 as int) && two_apart(c, cell) implies candidates@.contains(c) by {
            let n = candidates@.len();
            if c.1 == cell.1 && c.0 == cell.0 + 2 {
                assert(candidates@[0] == c);
            } else if c.1 == cell.1 && c.0 + 2 == cell.0 {
                let k: int = if cell.0 + 2 < width { 1 } else { 0 };
                assert(candidates@[k] == c);
            } else if c.0 == cell.0 && c.1 == cell.1 + 2 {
                let k: int = (if cell.0 + 2 < width { 1int } else { 0int }) + (if cell.0 >= 2 { 1int } else { 0int });
                assert(candidates@[k] == c);
            } else {
                assert(candidates@[n - 1] == c);
            }
        }
        let mut ret: Vec<(usize, usize)> = Vec::new();
        let mut i: usize = 0;
        while i < candidates.len()
            invariant
                i <= candidates@.len(),
                forall|j: int|
                    0 <= j < i && (map.spec_tile(candidates@[j].0 as int, candidates@[j].1 as int) == Tile::AIR)
                        == matches_air ==> ret@.contains(#[trigger] candidates@[j]),
                forall|j: int|
                    0 <= j < candidates@.len() ==> map.in_bounds(#[trigger] candidates@[j].0 as int, candidates@[j].1 as int)
                        && two_apart(candidates@[j], cell),
                forall|j: int|
                    0 <= j < ret@.len() ==> map.in_bounds(#[trigger] ret@[j].0 as int, ret@[j].1 as int) && two_apart(
                        ret@[j],
                        cell,
                    ) && (map.spec_tile(ret@[j].0 as int, ret@[j].1 as int) == Tile::AIR) == matches_air,
            decreases candidates@.len() - i,
        {
            let c = candidates[i];
            let is_air = map.tile_at(c.0, c.1).is_air();
            let ghost before = ret@;
            if is_air == matches_air {
                ret.push(c);
                assert(ret@[ret@.len() - 1] == c);
            }
            proof {
                assert forall|j: int|
                    0 <= j < i + 1 && (map.spec_tile(candidates@[j].0 as int, candidates@[j].1 as int) == Tile::AIR)
                        == matches_air implies ret@.contains(#[trigger] candidates@[j]) by {
                    if j < i {
                        let k = choose|k: int| 0 <= k < before.len() && before[k] == candidates@[j];
                        assert(ret@[k] == before[k]);
                    }
                }
            }
            i += 1;
        }
        ret
    }

    /// Connect two cells two apart on the same row or column with air, the cell between them
    /// included.
    fn connect_wall(&self, map: &mut GameWorld, coord1: &(usize, usize), coord2: (usize, usize))
        requires
            old(map).in_bounds(coord1.0 as int, coord1.1 as int),
            old(map).in_bounds(coord2.0 as int, coord2.1 as int),
            two_apart(*coord1, coord2),
        ensures
            final(map).spec_width() == old(map).spec_width(),
            final(map).spec_height() == old(map).spec_height(),
            old(map).same_but_tiles(*final(map)),
            forall|a: int, b: int|
                old(map).in_bounds(a, b) ==> #[trigger] final(map).spec_tile(a, b) == if between(a, b, *coord1, coord2) {
                    Tile::AIR
                } else {
                    old(map).spec_tile(a, b)
                },
    {
        if coord1.0 != coord2.0 {
            let lo = if coord1.0 < coord2.0 {
                coord1.0
            } else {
                coord2.0
            };
            map.set(lo, coord1.1, Tile::AIR);
            map.set(lo + 1, coord1.1, Tile::AIR);
            map.set(lo + 2, coord1.1, Tile::AIR);
        } else {
            let lo = if coord1.1 < coord2.1 {
                coord1.1
            } else {
                coord2.1
            };
            map.set(coord1.0, lo, Tile::AIR);
            map.set(coord1.0, lo + 1, Tile::AIR);
            map.set(coord1.0, lo + 2, Tile::AIR);
        }
    }
}

impl WorldGenerationAlgorithm for Maze {
    fn generate(&self) -> (r: Result<GameWorld, WorldGenerationError>)
        ensures
            self.generated(r),
    {
        Maze::generate(self)
    }

    fn width(&self) -> (r: &u32)
        ensures
            *r == self.width,
    {
        &self.width
    }

    fn height(&self) -> (r: &u32)
        ensures
            *r == self.height,
    {
        &self.height
    }
}

} // verus!
