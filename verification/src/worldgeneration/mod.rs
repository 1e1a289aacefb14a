//! World generators: empty maps, maps filled with one tile, and mazes.
//!
//! The kinds of map that the game offers are an empty map, a filled map and a labyrinth, which
//! is generated as an empty map for now. The maze generator stands on its own in `maze`.
pub mod empty;
pub mod filled;
pub mod maze;

use crate::tiles::Tile;
use crate::world::GameWorld;
use crate::worldgeneration::empty::Empty;
use crate::worldgeneration::filled::Filled;
use vstd::prelude::*;

verus! {

/// The kinds of maps that can be generated.
#[derive(Debug, Eq, PartialEq)]
pub enum WorldGenerationKind {
    /// A map of air.
    Empty,
    /// A map filled with one tile.
    Filled { color: Tile },
    /// A labyrinth of walls of one tile; it is generated as an empty map for now.
    Labyrinth { color: Tile },
}

impl Default for WorldGenerationKind {
    fn default() -> (r: Self)
        ensures
            r is Empty,
    {
        WorldGenerationKind::Empty
    }
}

impl Clone for WorldGenerationKind {
    fn clone(&self) -> (r: Self)
        ensures
            match (*self, r) {
                (WorldGenerationKind::Empty, WorldGenerationKind::Empty) => true,
                (WorldGenerationKind::Filled { color: a }, WorldGenerationKind::Filled { color: b }) => b.eqv(a),
                (WorldGenerationKind::Labyrinth { color: a }, WorldGenerationKind::Labyrinth { color: b }) => b.eqv(a),
                _ => false,
            },
    {
        match self {
            WorldGenerationKind::Empty => WorldGenerationKind::Empty,
            WorldGenerationKind::Filled { color } => WorldGenerationKind::Filled { color: color.clone() },
            WorldGenerationKind::Labyrinth { color } => WorldGenerationKind::Labyrinth { color: color.clone() },
        }
    }
}

impl WorldGenerationKind {
    /// Whether randomness, i.e., a seed is involved when generating a map using the given MapGenerationKind
    pub fn is_seeded(&self) -> (r: bool)
        ensures
            r <==> self is Labyrinth,
    {
        match self {
            WorldGenerationKind::Empty => false,
            WorldGenerationKind::Filled { .. } => false,
            WorldGenerationKind::Labyrinth { .. } => true,
        }
    }
}

/// The sizes of maps that can be generated.
#[derive(Debug, Eq, PartialEq, Copy, Clone, Structural)]
pub enum WorldSize {
    Classic5mx,
    Small,
    Medium,
    Large,
    Huge,
    Custom {
        /// The map width
        width: u32,
        /// The map height
        height: u32,
    },
}

impl Default for WorldSize {
    fn default() -> (r: Self)
        ensures
            r == WorldSize::Classic5mx,
    {
        WorldSize::Classic5mx
    }
}

impl WorldSize {
    /// The width of maps of this size.
    pub open spec fn spec_width(self) -> u32 {
        match self {
            WorldSize::Classic5mx => 35,
            WorldSize::Small => 22,
            WorldSize::Medium => 30,
            WorldSize::Large => 38,
            WorldSize::Huge => 50,
            WorldSize::Custom { width, height: _ } => width,
        }
    }

    /// The height of maps of this size.
    pub open spec fn spec_height(self) -> u32 {
        match self {
            WorldSize::Classic5mx => 15,
            WorldSize::Small => 10,
            WorldSize::Medium => 14,
            WorldSize::Large => 16,
            WorldSize::Huge => 20,
            WorldSize::Custom { width: _, height } => height,
        }
    }

    pub fn width(&self) -> (r: u32)
        ensures
            r == self.spec_width(),
    {
        match self {
            WorldSize::Classic5mx => 35,
            WorldSize::Small => 22,
            WorldSize::Medium => 30,
            WorldSize::Large => 38,
            WorldSize::Huge => 50,
            WorldSize::Custom { width, height: _ } => *width,
        }
    }

    pub fn height(&self) -> (r: u32)
        ensures
            r == self.spec_height(),
    {
        match self {
            WorldSize::Classic5mx => 15,
            WorldSize::Small => 10,
            WorldSize::Medium => 14,
            WorldSize::Large => 16,
            WorldSize::Huge => 20,
            WorldSize::Custom { width: _, height } => *height,
        }
    }
}

/// An error that might occur during a map generation
#[derive(Debug)]
pub enum WorldGenerationError {
    InvalidWidth { width: u32 },
    InvalidHeight { height: u32 },
    WidthOutOfRange { e: std::num::TryFromIntError },
    HeightOutOfRange { e: std::num::TryFromIntError },
    InvalidBorderWidth { border_width: u32 },
}

/// An algorithm that generates maps of a given size.
pub trait WorldGenerationAlgorithm {
    /// Generate the world using this algorithm.
    /// This may take a long time, depending on the algorithm.
    fn generate(&self) -> Result<GameWorld, WorldGenerationError>;

    /// Get the width of the generated map
    fn width(&self) -> &u32;

    /// Get the height of the generated map
    fn height(&self) -> &u32;
}

/// A generator for one of the kinds of maps.
pub enum WorldGenerator {
    Empty(Empty),
    Filled(Filled),
}

/// Build the generator matching the given parameters. A labyrinth is generated as an empty map.
pub fn build_generator(parameters: WorldGenerationKind, width: u32, height: u32) -> (r: WorldGenerator)
    ensures
        match (parameters, r) {
            (WorldGenerationKind::Empty, WorldGenerator::Empty(g)) => g.width == width && g.height == height,
            (WorldGenerationKind::Filled { color }, WorldGenerator::Filled(g)) => g.width == width && g.height
                == height && g.color == color,
            (WorldGenerationKind::Labyrinth { .. }, WorldGenerator::Empty(g)) => g.width == width && g.height
                == height,
            _ => false,
        },
{
    match parameters {
        WorldGenerationKind::Empty => WorldGenerator::Empty(Empty { width, height }),
        WorldGenerationKind::Filled { color } => WorldGenerator::Filled(Filled { width, height, color }),
        WorldGenerationKind::Labyrinth { .. } => WorldGenerator::Empty(Empty { width, height }),
    }
}

impl WorldGenerator {
    /// Generate the world with the chosen algorithm.
    pub fn generate(&self) -> (r: Result<GameWorld, WorldGenerationError>)
        ensures
            match self {
                WorldGenerator::Empty(g) => g.generated(r),
                WorldGenerator::Filled(g) => g.generated(r),
            },
    {
        match self {
            WorldGenerator::Empty(g) => g.generate(),
            WorldGenerator::Filled(g) => g.generate(),
        }
    }

    /// Get the width of the generated map
    pub fn width(&self) -> (r: &u32)
        ensures
            *r == match self {
                WorldGenerator::Empty(g) => g.width,
                WorldGenerator::Filled(g) => g.width,
            },
    {
        match self {
            WorldGenerator::Empty(g) => &g.width,
            WorldGenerator::Filled(g) => &g.width,
        }
    }

    /// Get the height of the generated map
    pub fn height(&self) -> (r: &u32)
        ensures
            *r == match self {
                WorldGenerator::Empty(g) => g.height,
                WorldGenerator::Filled(g) => g.height,
            },
    {
        match self {
            WorldGenerator::Empty(g) => &g.height,
            WorldGenerator::Filled(g) => &g.height,
        }
    }
}

impl WorldGenerationAlgorithm for WorldGenerator {
    fn generate(&self) -> (r: Result<GameWorld, WorldGenerationError>)
        ensures
            match self {
                WorldGenerator::Empty(g) => g.generated(r),
                WorldGenerator::Filled(g) => g.generated(r),
            },
    {
        WorldGenerator::generate(self)
    }

    fn width(&self) -> (r: &u32)
        ensures
            *r == match self {
                WorldGenerator::Empty(g) => g.width,
                WorldGenerator::Filled(g) => g.width,
            },
    {
        WorldGenerator::width(self)
    }

    fn height(&self) -> (r: &u32)
        ensures
            *r == match self {
                WorldGenerator::Empty(g) => g.height,
                WorldGenerator::Filled(g) => g.height,
            },
    {
        WorldGenerator::height(self)
    }
}

/// `world` is a new map of the given size as `GameWorld::new` makes it, but for its tiles and
/// its spawn.
pub open spec fn fresh_but_tiles(world: GameWorld, width: u32, height: u32) -> bool {
    &&& world.spec_width() == width
    &&& world.spec_height() == height
    &&& world.spec_name() == "New World"@
    &&& world.spec_author() == Seq::<char>::empty()
    &&& world.spec_hash() == Seq::new(32, |i: int| 0u8)
    &&& world.spec_filename() is None
    &&& world.spec_clean()
    &&& world.spec_messages() == Seq::<Seq<char>>::empty()
    &&& world.spec_forced_tileset() is None
}

} // verus!
