use crate::tiles::Tile;
use crate::world::GameWorld;
use crate::worldgeneration::{fresh_but_tiles, WorldGenerationAlgorithm, WorldGenerationError};
use vstd::prelude::*;

verus! {

/// Generates maps filled with one tile.
pub struct Filled {
    pub width: u32,
    pub height: u32,
    pub color: Tile,
}

impl Filled {
    /// What generating gives: an error for a zero width, else for a zero height, else a new map
    /// filled with the tile.
    pub open spec fn generated(self, r: Result<GameWorld, WorldGenerationError>) -> bool {
        if self.width == 0 {
            r matches Err(WorldGenerationError::InvalidWidth { width }) && width == self.width
        } else if self.height == 0 {
            r matches Err(WorldGenerationError::InvalidHeight { height }) && height == self.height
        } else {
            r matches Ok(world) && fresh_but_tiles(world, self.width, self.height) && world.spec_spawn() == (
            if self.color.spec_kind() is PLAYERSPAWN {
                ((self.width - 1) as usize, (self.height - 1) as usize)
            } else {
                (1usize, 1usize)
            }) && forall|x: int, y: int| world.in_bounds(x, y) ==> (#[trigger] world.spec_tile(x, y)).eqv(self.color)
        }
    }

    pub fn generate(&self) -> (r: Result<GameWorld, WorldGenerationError>)
        ensures
            self.generated(r),
    {
        if self.width == 0 {
            Err(WorldGenerationError::InvalidWidth { width: self.width })
        } else if self.height == 0 {
            Err(WorldGenerationError::InvalidHeight { height: self.height })
        } else {
            let mut world = GameWorld::new(self.width as usize, self.height as usize);
            world.fill(&self.color);
            Ok(world)
        }
    }
}

impl WorldGenerationAlgorithm for Filled {
    fn generate(&self) -> (r: Result<GameWorld, WorldGenerationError>)
        ensures
            self.generated(r),
    {
        Filled::generate(self)
    }

    fn width(&self) -> (r: &u32)
        ensures
            *r == self.width,
    {
        &self.width
    }

    fn height(&self) -> (r: &u32)
        ensures
            *r == self.height,
    {
        &self.height
    }
}

} // verus!
