use crate::tiles::Tile;
use crate::world::GameWorld;
use crate::worldgeneration::{fresh_but_tiles, WorldGenerationAlgorithm, WorldGenerationError};
use vstd::prelude::*;

verus! {

/// Generates maps of air.
#[derive(Clone, Copy)]
pub struct Empty {
    pub width: u32,
    pub height: u32,
}

impl Empty {
    /// What generating gives: an error for a zero width, else for a zero height, else a new map
    /// of air.
    pub open spec fn generated(self, r: Result<GameWorld, WorldGenerationError>) -> bool {
        if self.width == 0 {
            r matches Err(WorldGenerationError::InvalidWidth { width }) && width == self.width
        } else if self.height == 0 {
            r matches Err(WorldGenerationError::InvalidHeight { height }) && height == self.height
        } else {
            r matches Ok(world) && fresh_but_tiles(world, self.width, self.height) && world.spec_spawn() == (
            1usize,
            1usize,
            ) && forall|x: int, y: int| world.in_bounds(x, y) ==> #[trigger] world.spec_tile(x, y) == Tile::AIR
        }
    }

    pub fn generate(&self) -> (r: Result<GameWorld, WorldGenerationError>)
        ensures
            self.generated(r),
    {
        if self.width == 0 {
            Err(WorldGenerationError::InvalidWidth { width: self.width })
        } else if self.height == 0 {
            Err(WorldGenerationError::InvalidHeight { height: self.height })
        } else {
            Ok(GameWorld::new(self.width as usize, self.height as usize))
        }
    }
}

impl WorldGenerationAlgorithm for Empty {
    fn generate(&self) -> (r: Result<GameWorld, WorldGenerationError>)
        ensures
            self.generated(r),
    {
        Empty::generate(self)
    }

    fn width(&self) -> (r: &u32)
        ensures
            *r == self.width,
    {
        &self.width
    }

    fn height(&self) -> (r: &u32)
        ensures
            *r == self.height,
    {
        &self.height
    }
}

} // verus!
