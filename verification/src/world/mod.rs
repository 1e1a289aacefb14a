use crate::directories::as_path;
use crate::text::{push_hex_byte, spec_hex_byte, string_from_chars};
use crate::tiles::{Tile, TileKind};
use crate::tilesets::Tileset;
use std::path::{Path, PathBuf};
use vstd::prelude::*;

pub mod exampleworlds;
pub mod hash;
pub mod io;
pub mod io_error;
pub mod presets;

verus! {

#[verifier::external_type_specification]
#[verifier::external_body]
pub struct ExPathBuf(std::path::PathBuf);

#[verifier::external_type_specification]
#[verifier::external_body]
pub struct ExPath(std::path::Path);

/// A map: a grid of tiles with a name, an author, a hash and messages.
pub struct GameWorld {
    /// A human-readable name of this world
    name: String,
    /// A human-readable name of this world
    author: String,
    /// A globally unique identifier (hash) of the map
    hash: [u8; 32],
    /// Data that contains all tiles in this world, column by column
    data: Vec<Vec<Tile>>,
    /// The coordinates of the player spawn
    playerspawn: (usize, usize),
    /// The file name of this world, if any file name has been set
    filename: Option<PathBuf>,
    /// If true, this map is clean, i.e., there are no changes that are unsaved
    clean: bool,
    /// All messages that are stored in this map
    messages: Vec<String>,
    /// The tile set the map must be shown with, if any
    forced_tileset: Option<Tileset>,
}

/// The hexadecimal notation of a sequence of bytes, two upper-case digits per byte.
pub open spec fn spec_hex(bytes: Seq<u8>) -> Seq<char>
    decreases bytes.len(),
{
    if bytes.len() == 0 {
        Seq::empty()
    } else {
        spec_hex(bytes.drop_last()) + spec_hex_byte(bytes.last())
    }
}

impl GameWorld {
    /// All columns have the same height.
    #[verifier::type_invariant]
    spec fn wf(self) -> bool {
        forall|i: int| 0 <= i < self.data@.len() ==> (#[trigger] self.data@[i])@.len() == self.data@[0]@.len()
    }

    pub closed spec fn spec_name(self) -> Seq<char> {
        self.name@
    }

    pub closed spec fn spec_author(self) -> Seq<char> {
        self.author@
    }

    pub closed spec fn spec_hash(self) -> Seq<u8> {
        self.hash@
    }

    /// The number of columns.
    pub closed spec fn spec_width(self) -> nat {
        self.data@.len()
    }

    /// The number of rows; 0 for a world without columns.
    pub closed spec fn spec_height(self) -> nat {
        if self.data@.len() > 0 {
            self.data@[0]@.len()
        } else {
            0
        }
    }

    /// The tile at column `x` and row `y`.
    pub closed spec fn spec_tile(self, x: int, y: int) -> Tile {
        self.data@[x]@[y]
    }

    pub closed spec fn spec_spawn(self) -> (usize, usize) {
        self.playerspawn
    }

    pub closed spec fn spec_filename(self) -> Option<PathBuf> {
        self.filename
    }

    pub closed spec fn spec_clean(self) -> bool {
        self.clean
    }

    pub closed spec fn spec_messages(self) -> Seq<Seq<char>> {
        self.messages@.map_values(|m: String| m@)
    }

    pub closed spec fn spec_forced_tileset(self) -> Option<Tileset> {
        self.forced_tileset
    }

    /// A hash is 32 bytes long.
    pub proof fn lemma_hash_len(self)
        ensures
            self.spec_hash().len() == 32,
    {
    }

    /// `(x, y)` lies on the map.
    pub open spec fn in_bounds(self, x: int, y: int) -> bool {
        0 <= x < self.spec_width() && 0 <= y < self.spec_height()
    }

    /// `other` holds the same tiles as `self` everywhere but at `(x, y)`, and the same size.
    pub open spec fn same_tiles_except(self, other: GameWorld, x: int, y: int) -> bool {
        &&& other.spec_width() == self.spec_width()
        &&& other.spec_height() == self.spec_height()
        &&& forall|i: int, j: int|
            self.in_bounds(i, j) && !(i == x && j == y) ==> #[trigger] other.spec_tile(i, j) == self.spec_tile(i, j)
    }

    /// `other` has the size, the tiles and the spawn of `self`.
    pub open spec fn same_grid(self, other: GameWorld) -> bool {
        &&& other.spec_width() == self.spec_width()
        &&& other.spec_height() == self.spec_height()
        &&& other.spec_spawn() == self.spec_spawn()
        &&& forall|i: int, j: int| self.in_bounds(i, j) ==> #[trigger] other.spec_tile(i, j) == self.spec_tile(i, j)
    }

    /// `other` differs from `self` in its tiles and spawn at most.
    pub open spec fn same_but_tiles(self, other: GameWorld) -> bool {
        &&& other.spec_name() == self.spec_name()
        &&& other.spec_author() == self.spec_author()
        &&& other.spec_hash() == self.spec_hash()
        &&& other.spec_filename() == self.spec_filename()
        &&& other.spec_clean() == self.spec_clean()
        &&& other.spec_messages() == self.spec_messages()
        &&& other.spec_forced_tileset() == self.spec_forced_tileset()
    }

    pub fn new(width: usize, height: usize) -> (r: Self)
        requires
            width > 0,
            height > 0,
        ensures
            r.spec_width() == width,
            r.spec_height() == height,
            forall|x: int, y: int| r.in_bounds(x, y) ==> #[trigger] r.spec_tile(x, y) == Tile::AIR,
            r.spec_spawn() == (1usize, 1usize),
            r.spec_name() == "New World"@,
            r.spec_author() == Seq::<char>::empty(),
            r.spec_hash() == Seq::new(32, |i: int| 0u8),
            r.spec_filename() is None,
            r.spec_clean(),
            r.spec_messages() == Seq::<Seq<char>>::empty(),
            r.spec_forced_tileset() is None,
    {
        let data = air_grid(width, height);
        let r = GameWorld {
            data,
            playerspawn: (1, 1),
            name: String::from_str("New World"),
            author: String::new(),
            hash: [0u8; 32],
            filename: None,
            clean: true,
            messages: Vec::new(),
            forced_tileset: None,
        };
        assert(r.spec_hash() =~= Seq::new(32, |i: int| 0u8));
        assert(r.spec_messages() =~= Seq::<Seq<char>>::empty());
        r
    }

    /// Get the unique ID of this map as hex-string representation
    pub fn hash_str(&self) -> (r: String)
        ensures
            r@ == spec_hex(self.spec_hash()),
    {
        let mut v: Vec<char> = Vec::new();
        let mut i: usize = 0;
        while i < 32
            invariant
                i <= 32,
                self.hash@.len() == 32,
                v@ == spec_hex(self.hash@.take(i as int)),
            decreases 32 - i,
        {
            proof {
                assert(self.hash@.take(i + 1).drop_last() =~= self.hash@.take(i as int));
            }
            push_hex_byte(&mut v, self.hash[i]);
            i += 1;
        }
        assert(self.hash@.take(32) =~= self.hash@);
        string_from_chars(&v)
    }

    /// Get the unique ID of this map as byte slice
    pub fn hash(&self) -> (r: &[u8; 32])
        ensures
            r@ == self.spec_hash(),
    {
        &self.hash
    }

    /// Set the unique ID of this map.
    pub(crate) fn set_hash(&mut self, hash: [u8; 32])
        ensures
            final(self).spec_hash() == hash@,
            final(self).spec_name() == old(self).spec_name(),
            final(self).spec_author() == old(self).spec_author(),
            final(self).spec_filename() == old(self).spec_filename(),
            final(self).spec_clean() == old(self).spec_clean(),
            final(self).spec_messages() == old(self).spec_messages(),
            final(self).spec_forced_tileset() == old(self).spec_forced_tileset(),
            old(self).same_grid(*final(self)),
    {
        proof {
            use_type_invariant(&*self);
        }
        self.hash = hash;
    }

    /// Get the name of this world
    pub fn get_name(&self) -> (r: &str)
        ensures
            r@ == self.spec_name(),
    {
        self.name.as_str()
    }

    /// Get the last set file name for this map, or None if it has been created new
    pub fn get_filename(&self) -> (r: Option<&Path>)
        ensures
            r is Some <==> self.spec_filename() is Some,
    {
        match &self.filename {
            None => None,
            Some(filename) => Some(as_path(filename)),
        }
    }

    /// Set the last used file name of this map
    pub fn set_filename(&mut self, new_filename: PathBuf)
        ensures
            final(self).spec_filename() == Some(new_filename),
            final(self).spec_name() == old(self).spec_name(),
            final(self).spec_author() == old(self).spec_author(),
            final(self).spec_hash() == old(self).spec_hash(),
            final(self).spec_clean() == old(self).spec_clean(),
            final(self).spec_messages() == old(self).spec_messages(),
            final(self).spec_forced_tileset() == old(self).spec_forced_tileset(),
            old(self).same_grid(*final(self)),
    {
        proof {
            use_type_invariant(&*self);
        }
        self.filename = Some(new_filename);
    }

    /// Remove the file name of this map
    pub fn remove_filename(&mut self)
        ensures
            final(self).spec_filename() is None,
            final(self).spec_name() == old(self).spec_name(),
            final(self).spec_author() == old(self).spec_author(),
            final(self).spec_hash() == old(self).spec_hash(),
            final(self).spec_clean() == old(self).spec_clean(),
            final(self).spec_messages() == old(self).spec_messages(),
            final(self).spec_forced_tileset() == old(self).spec_forced_tileset(),
            old(self).same_grid(*final(self)),
    {
        proof {
            use_type_invariant(&*self);
        }
        self.filename = None;
    }

    /// Set the name of this world
    pub fn set_name(&mut self, new_name: &str) -> (r: &mut Self)
        ensures
            r.spec_name() == new_name@,
            r.spec_author() == old(self).spec_author(),
            r.spec_hash() == old(self).spec_hash(),
            r.spec_filename() == old(self).spec_filename(),
            r.spec_clean() == old(self).spec_clean(),
            r.spec_messages() == old(self).spec_messages(),
            r.spec_forced_tileset() == old(self).spec_forced_tileset(),
            old(self).same_grid(*r),
            *final(self) == *final(r),
    {
        proof {
            use_type_invariant(&*self);
        }
        self.name = String::from_str(new_name);
        self
    }

    /// Get the author name of this world
    pub fn get_author(&self) -> (r: &str)
        ensures
            r@ == self.spec_author(),
    {
        self.author.as_str()
    }

    /// Set the author name of this world
    pub fn set_author(&mut self, new_name: &str) -> (r: &mut Self)
        ensures
            r.spec_author() == new_name@,
            r.spec_name() == old(self).spec_name(),
            r.spec_hash() == old(self).spec_hash(),
            r.spec_filename() == old(self).spec_filename(),
            r.spec_clean() == old(self).spec_clean(),
            r.spec_messages() == old(self).spec_messages(),
            r.spec_forced_tileset() == old(self).spec_forced_tileset(),
            old(self).same_grid(*r),
            *final(self) == *final(r),
    {
        proof {
            use_type_invariant(&*self);
        }
        self.author = String::from_str(new_name);
        self
    }

    ///
    /// Set the tile at the given coordinate to the given value.
    pub fn set(&mut self, x: usize, y: usize, tile: Tile) -> (r: &mut Self)
        requires
            old(self).in_bounds(x as int, y as int),
        ensures
            r.spec_tile(x as int, y as int) == tile,
            old(self).same_tiles_except(*r, x as int, y as int),
            old(self).same_but_tiles(*r),
            r.spec_spawn() == (if tile.spec_kind() is PLAYERSPAWN { (x, y) } else { old(self).spec_spawn() }),
            *final(self) == *final(r),
    {
        proof {
            use_type_invariant(&*self);
        }
        let is_spawn = match tile.kind() {
            TileKind::PLAYERSPAWN => true,
            _ => false,
        };
        let mut data: Vec<Vec<Tile>> = Vec::new();
        std::mem::swap(&mut data, &mut self.data);
        data[x][y] = tile;
        self.data = data;
        if is_spawn {
            self.playerspawn = (x, y);
        }
        self
    }

    ///
    /// Set the tile at the given coordinate to a new message tile showing the given message.
    pub fn set_message_tile(&mut self, x: usize, y: usize, message: String) -> (r: &mut Self)
        requires
            old(self).in_bounds(x as int, y as int),
        ensures
            r.spec_tile(x as int, y as int) == (Tile::MESSAGE { message_id: old(self).spec_messages().len() as usize }),
            old(self).same_tiles_except(*r, x as int, y as int),
            r.spec_spawn() == old(self).spec_spawn(),
            r.spec_messages() == old(self).spec_messages().push(message@),
            r.spec_name() == old(self).spec_name(),
            r.spec_author() == old(self).spec_author(),
            r.spec_hash() == old(self).spec_hash(),
            r.spec_filename() == old(self).spec_filename(),
            r.spec_clean() == old(self).spec_clean(),
            r.spec_forced_tileset() == old(self).spec_forced_tileset(),
            *final(self) == *final(r),
    {
        let id = self.messages.len();
        self.set(x, y, Tile::MESSAGE { message_id: id });
        proof {
            use_type_invariant(&*self);
        }
        let ghost after_set = *self;
        let mut messages: Vec<String> = Vec::new();
        std::mem::swap(&mut messages, &mut self.messages);
        messages.push(message);
        self.messages = messages;
        assert(self.spec_messages() =~= old(self).spec_messages().push(message@));
        assert(after_set.same_grid(*self));
        self
    }

    ///
    /// Get the tile at the given location.
    /// If the location is outside of the map boundaries, return None instead.
    pub fn get(&self, x: i32, y: i32) -> (r: Option<&Tile>)
        ensures
            r is Some <==> self.in_bounds(x as int, y as int),
            r matches Some(t) ==> *t == self.spec_tile(x as int, y as int),
    {
        proof {
            use_type_invariant(self);
        }
        if x < 0 || y < 0 {
            return None;
        }
        let xu = x as usize;
        let yu = y as usize;
        if xu >= self.data.len() {
            return None;
        }
        if yu >= self.data[xu].len() {
            return None;
        }
        Some(&self.data[xu][yu])
    }

    /// Get the message with the given message ID or None, if it does not exist.
    pub fn get_message(&self, message_id: usize) -> (r: Option<&str>)
        ensures
            r is Some <==> message_id < self.spec_messages().len(),
            r matches Some(m) ==> m@ == self.spec_messages()[message_id as int],
    {
        if message_id >= self.messages.len() {
            None
        } else {
            Some(self.messages[message_id].as_str())
        }
    }

    /// Set the message with the given message ID to a new value.
    pub fn set_message(&mut self, message_id: usize, message: String) -> (r: Result<(), ()>)
        ensures
            r is Ok <==> message_id < old(self).spec_messages().len(),
            final(self).spec_messages() == (if r is Ok {
                old(self).spec_messages().update(message_id as int, message@)
            } else {
                old(self).spec_messages()
            }),
            final(self).spec_name() == old(self).spec_name(),
            final(self).spec_author() == old(self).spec_author(),
            final(self).spec_hash() == old(self).spec_hash(),
            final(self).spec_filename() == old(self).spec_filename(),
            final(self).spec_clean() == old(self).spec_clean(),
            final(self).spec_forced_tileset() == old(self).spec_forced_tileset(),
            old(self).same_grid(*final(self)),
    {
        proof {
            use_type_invariant(&*self);
        }
        if message_id < self.messages.len() {
            self.messages[message_id] = message;
            assert(self.spec_messages() =~= old(self).spec_messages().update(message_id as int, message@));
            Ok(())
        } else {
            Err(())
        }
    }

    ///
    /// Fill the whole map with the given tile and delete everything else.
    pub fn fill(&mut self, tile: &Tile) -> (r: &mut Self)
        ensures
            r.spec_width() == old(self).spec_width(),
            r.spec_height() == old(self).spec_height(),
            forall|x: int, y: int| r.in_bounds(x, y) ==> (#[trigger] r.spec_tile(x, y)).eqv(*tile),
            r.spec_spawn() == (if tile.spec_kind() is PLAYERSPAWN && old(self).spec_width() > 0
                && old(self).spec_height() > 0 {
                ((old(self).spec_width() - 1) as usize, (old(self).spec_height() - 1) as usize)
            } else {
                old(self).spec_spawn()
            }),
            old(self).same_but_tiles(*r),
            *final(self) == *final(r),
    {
        proof {
            use_type_invariant(&*self);
        }
        let width = self.data.len();
        if width == 0 {
            return self;
        }
        let height = self.data[0].len();
        let ghost start = *self;
        let mut i: usize = 0;
        while i < width
            invariant
                i <= width,
                width == self.spec_width() == start.spec_width(),
                height == self.spec_height() == start.spec_height(),
                start.same_but_tiles(*self),
                forall|a: int, b: int| 0 <= a < i && 0 <= b < height ==> (#[trigger] self.spec_tile(a, b)).eqv(*tile),
                self.spec_spawn() == (if tile.spec_kind() is PLAYERSPAWN && i > 0 && height > 0 {
                    ((i - 1) as usize, (height - 1) as usize)
                } else {
                    start.spec_spawn()
                }),
            decreases width - i,
        {
            let mut j: usize = 0;
            while j < height
                invariant
                    i < width,
                    j <= height,
                    width == self.spec_width() == start.spec_width(),
                    height == self.spec_height() == start.spec_height(),
                    start.same_but_tiles(*self),
                    forall|a: int, b: int|
                        (0 <= a < i && 0 <= b < height) || (a == i && 0 <= b < j) ==> (#[trigger] self.spec_tile(a, b)).eqv(*tile),
                    self.spec_spawn() == (if tile.spec_kind() is PLAYERSPAWN && j > 0 {
                        (i, (j - 1) as usize)
                    } else if tile.spec_kind() is PLAYERSPAWN && i > 0 && height > 0 {
                        ((i - 1) as usize, (height - 1) as usize)
                    } else {
                        start.spec_spawn()
                    }),
                decreases height - j,
            {
                let copy = tile.clone();
                proof {
                    lemma_eqv_same_kind(copy, *tile);
                }
                self.set(i, j, copy);
                j += 1;
            }
            i += 1;
        }
        self
    }

    ///
    /// Get the width of this world.
    pub fn width(&self) -> (r: usize)
        ensures
            r == self.spec_width(),
    {
        self.data.len()
    }

    ///
    /// Get the height of this world.
    pub fn height(&self) -> (r: usize)
        ensures
            r == self.spec_height(),
    {
        if self.width() > 0 {
            self.data[0].len()
        } else {
            0
        }
    }

    pub fn player_spawn(&self) -> (r: (usize, usize))
        ensures
            r == self.spec_spawn(),
    {
        self.playerspawn
    }

    /// Get the dirty state of this map, i.e. if the map has unsaved changes
    pub fn is_dirty(&self) -> (r: bool)
        ensures
            r == !self.spec_clean(),
    {
        !self.clean
    }

    /// Set the dirty state of this map to dirty, i.e. the map has unsaved changes
    pub fn set_dirty(&mut self) -> (r: &mut Self)
        ensures
            !r.spec_clean(),
            r.spec_name() == old(self).spec_name(),
            r.spec_author() == old(self).spec_author(),
            r.spec_hash() == old(self).spec_hash(),
            r.spec_filename() == old(self).spec_filename(),
            r.spec_messages() == old(self).spec_messages(),
            r.spec_forced_tileset() == old(self).spec_forced_tileset(),
            old(self).same_grid(*r),
            *final(self) == *final(r),
    {
        proof {
            use_type_invariant(&*self);
        }
        self.clean = false;
        self
    }

    /// Set the dirty state of this map to clean, i.e. the map has no unsaved changes
    pub fn set_clean(&mut self) -> (r: &mut Self)
        ensures
            r.spec_clean(),
            r.spec_name() == old(self).spec_name(),
            r.spec_author() == old(self).spec_author(),
            r.spec_hash() == old(self).spec_hash(),
            r.spec_filename() == old(self).spec_filename(),
            r.spec_messages() == old(self).spec_messages(),
            r.spec_forced_tileset() == old(self).spec_forced_tileset(),
            old(self).same_grid(*r),
            *final(self) == *final(r),
    {
        proof {
            use_type_invariant(&*self);
        }
        self.clean = true;
        self
    }

    /// Reset the game state.
    /// This will close opened doors.
    pub fn reset_game_state(&mut self)
        ensures
            final(self).spec_width() == old(self).spec_width(),
            final(self).spec_height() == old(self).spec_height(),
            final(self).spec_spawn() == old(self).spec_spawn(),
            forall|x: int, y: int| old(self).in_bounds(x, y) ==> #[trigger] final(self).spec_tile(x, y) == (
                if old(self).spec_tile(x, y) == Tile::OPENDOOR { Tile::DOOR } else { old(self).spec_tile(x, y) }),
            old(self).same_but_tiles(*final(self)),
    {
        let width = self.width();
        let height = self.height();
        let ghost start = *self;
        let mut x: usize = 0;
        while x < width
            invariant
                x <= width,
                width == self.spec_width() == start.spec_width(),
                height == self.spec_height() == start.spec_height(),
                self.spec_spawn() == start.spec_spawn(),
                start.same_but_tiles(*self),
                forall|a: int, b: int| start.in_bounds(a, b) ==> #[trigger] self.spec_tile(a, b) == (
                    if a < x && start.spec_tile(a, b) == Tile::OPENDOOR { Tile::DOOR } else { start.spec_tile(a, b) }),
            decreases width - x,
        {
            let mut y: usize = 0;
            while y < height
                invariant
                    x < width,
                    y <= height,
                    width == self.spec_width() == start.spec_width(),
                    height == self.spec_height() == start.spec_height(),
                    self.spec_spawn() == start.spec_spawn(),
                    start.same_but_tiles(*self),
                    forall|a: int, b: int| start.in_bounds(a, b) ==> #[trigger] self.spec_tile(a, b) == (
                        if (a < x || (a == x && b < y)) && start.spec_tile(a, b) == Tile::OPENDOOR { Tile::DOOR } else { start.spec_tile(a, b) }),
                decreases height - y,
            {
                if self.tile_at(x, y).is_open_door() {
                    self.set(x, y, Tile::DOOR);
                }
                y += 1;
            }
            x += 1;
        }
    }

    /// Replace the name, author, hash and tiles of this map; the spawn too, where one is given.
    pub(crate) fn install(
        &mut self,
        name: String,
        author: String,
        hash: [u8; 32],
        grid: Vec<Vec<Tile>>,
        spawn: Option<(usize, usize)>,
    )
        requires
            grid@.len() > 0,
            forall|i: int| 0 <= i < grid@.len() ==> (#[trigger] grid@[i])@.len() == grid@[0]@.len(),
        ensures
            final(self).spec_name() == name@,
            final(self).spec_author() == author@,
            final(self).spec_hash() == hash@,
            final(self).spec_width() == grid@.len(),
            final(self).spec_height() == grid@[0]@.len(),
            forall|x: int, y: int| final(self).in_bounds(x, y) ==> #[trigger] final(self).spec_tile(x, y) == grid@[x]@[y],
            final(self).spec_spawn() == (match spawn {
                Some(s) => s,
                None => old(self).spec_spawn(),
            }),
            final(self).spec_filename() == old(self).spec_filename(),
            final(self).spec_clean() == old(self).spec_clean(),
            final(self).spec_messages() == old(self).spec_messages(),
            final(self).spec_forced_tileset() == old(self).spec_forced_tileset(),
    {
        proof {
            use_type_invariant(&*self);
        }
        self.name = name;
        self.author = author;
        self.hash = hash;
        self.data = grid;
        match spawn {
            Some(s) => {
                self.playerspawn = s;
            },
            None => {},
        }
    }

    /// The tile at a position on the map.
    pub(crate) fn tile_at(&self, x: usize, y: usize) -> (r: &Tile)
        requires
            self.in_bounds(x as int, y as int),
        ensures
            *r == self.spec_tile(x as int, y as int),
    {
        proof {
            use_type_invariant(self);
        }
        &self.data[x][y]
    }

    /// The tile set the map must be shown with, if any.
    pub fn forced_tileset(&self) -> (r: Option<Tileset>)
        ensures
            r == self.spec_forced_tileset(),
    {
        self.forced_tileset
    }

    /// Force the map to be shown with the given tile set, or with any tile set for `None`.
    pub fn set_forced_tileset(&mut self, tileset: Option<Tileset>)
        ensures
            final(self).spec_forced_tileset() == tileset,
            final(self).spec_name() == old(self).spec_name(),
            final(self).spec_author() == old(self).spec_author(),
            final(self).spec_hash() == old(self).spec_hash(),
            final(self).spec_filename() == old(self).spec_filename(),
            final(self).spec_clean() == old(self).spec_clean(),
            final(self).spec_messages() == old(self).spec_messages(),
            old(self).same_grid(*final(self)),
    {
        proof {
            use_type_invariant(&*self);
        }
        self.forced_tileset = tileset;
    }
}

impl Default for GameWorld {
    fn default() -> (r: Self)
        ensures
            r.spec_width() == 0,
            r.spec_height() == 0,
            r.spec_spawn() == (0usize, 0usize),
            r.spec_name() == Seq::<char>::empty(),
            r.spec_author() == Seq::<char>::empty(),
            r.spec_hash() == Seq::new(32, |i: int| 0u8),
            r.spec_filename() is None,
            r.spec_clean(),
            r.spec_messages() == Seq::<Seq<char>>::empty(),
            r.spec_forced_tileset() is None,
    {
        let r = GameWorld {
            name: String::new(),
            author: String::new(),
            hash: [0u8; 32],
            data: Vec::new(),
            playerspawn: (0, 0),
            filename: None,
            clean: true,
            messages: Vec::new(),
            forced_tileset: None,
        };
        assert(r.spec_hash() =~= Seq::new(32, |i: int| 0u8));
        assert(r.spec_messages() =~= Seq::<Seq<char>>::empty());
        r
    }
}

/// A grid of `width` columns of `height` air tiles each.
pub(crate) fn air_grid(width: usize, height: usize) -> (data: Vec<Vec<Tile>>)
    ensures
        data@.len() == width,
        forall|a: int| 0 <= a < width ==> (#[trigger] data@[a])@.len() == height,
        forall|a: int, b: int| 0 <= a < width && 0 <= b < height ==> #[trigger] data@[a]@[b] == Tile::AIR,
{
    let mut data: Vec<Vec<Tile>> = Vec::new();
    let mut i: usize = 0;
    while i < width
        invariant
            i <= width,
            data@.len() == i,
            forall|a: int| 0 <= a < i ==> (#[trigger] data@[a])@.len() == height,
            forall|a: int, b: int| 0 <= a < i && 0 <= b < height ==> #[trigger] data@[a]@[b] == Tile::AIR,
        decreases width - i,
    {
        let mut col: Vec<Tile> = Vec::new();
        let mut j: usize = 0;
        while j < height
            invariant
                j <= height,
                col@.len() == j,
                forall|b: int| 0 <= b < j ==> #[trigger] col@[b] == Tile::AIR,
            decreases height - j,
        {
            col.push(Tile::AIR);
            j += 1;
        }
        data.push(col);
        i += 1;
    }
    data
}

/// Tiles that are the same tile have the same kind.
proof fn lemma_eqv_same_kind(a: Tile, b: Tile)
    requires
        a.eqv(b),
    ensures
        a.spec_kind() == b.spec_kind(),
{
}

} // verus!
