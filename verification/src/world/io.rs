//! The binary map file format.
//!
//! 1. Magic Bytes 0x 45 78 6f 64 75 73 4d 61 70
//! 2. Map Format Version (current version: 0x01)
//! 3. Length of Name, Name, encoded with bincode
//! 4. Length of Author, Author, encoded with bincode
//! 5. Cached hash as 32-byte octet
//! 6. Map Width, Map Height, each as eight bytes
//! 7. Map Tiles, one byte each, row by row from bottom to top: (0,0),(1,0),(2,0),...
//!
//! The cached hash is the SHA-256 of parts 6 and 7; it is recomputed on load, and the load
//! fails if it does not match.
use vstd::utf8::encode_utf8;
use vstd::string::StringSliceAdditionalSpecFns;
use crate::codec::{
    deserialize_string, deserialize_usize, le_bytes, le_value, lemma_le_round_trip,
    lemma_pow256_values, lemma_string_round_trip, read_string_value, reads_string,
    serialize_string, serialize_usize, string_bytes, string_len, tail,
};
use crate::io_error::IoError;
use crate::tiles::{lemma_spawn_byte, lemma_tile_byte_round_trip, Tile, TileKind};
use crate::world::io_error::GameWorldParseError;
use crate::world::hash::{sha256, spec_sha256};
use crate::world::{air_grid, GameWorld};
use vstd::prelude::*;

verus! {

pub const CURRENT_MAP_VERSION: u8 = 0x01;
pub const MAGICBYTES: [u8; 9] = [0x45, 0x78, 0x6f, 0x64, 0x75, 0x73, 0x4d, 0x61, 0x70];
pub const MAX_MAP_WIDTH: usize = 1024;
pub const MAX_MAP_HEIGHT: usize = 1024;
pub const HASH_LENGTH: usize = 32;

/// The magic bytes that every map file starts with: "ExodusMap".
pub open spec fn spec_magic() -> Seq<u8> {
    seq![0x45u8, 0x78u8, 0x6fu8, 0x64u8, 0x75u8, 0x73u8, 0x4du8, 0x61u8, 0x70u8]
}

/// The position of `(x, y)` in a row-by-row listing of a grid `width` tiles wide.
pub open spec fn row_major(x: int, y: int, width: int) -> int {
    y * width + x
}

pub(crate) proof fn lemma_row_major(x: int, y: int, w: int, h: int)
    requires
        0 <= x < w,
        0 <= y < h,
    ensures
        0 <= row_major(x, y, w) < w * h,
        row_major(x, y, w) % w == x,
        row_major(x, y, w) / w == y,
        row_major(x, y, w) + 1 <= w * h,
{
    assert(0 <= y * w) by (nonlinear_arith)
        requires
            0 <= y,
            0 < w,
    ;
    assert(y * w + x < w * h) by (nonlinear_arith)
        requires
            0 <= x < w,
            0 <= y < h,
    ;
    vstd::arithmetic::div_mod::lemma_fundamental_div_mod_converse(y * w + x, w, y, x);
}


/// Where the author's name starts in map file `d`.
pub open spec fn author_start(d: Seq<u8>) -> int {
    10 + string_len(d.skip(10)) as int
}

/// Where the hash starts in map file `d`.
pub open spec fn hash_start(d: Seq<u8>) -> int {
    author_start(d) + string_len(d.skip(author_start(d)))
}

/// Where the width starts in map file `d`; the height follows, then the tiles.
pub open spec fn width_start(d: Seq<u8>) -> int {
    hash_start(d) + 32
}

/// Where the tiles start in map file `d`.
pub open spec fn tiles_start(d: Seq<u8>) -> int {
    width_start(d) + 16
}

/// Whether the width can be read from map file `d`.
pub open spec fn reads_width(d: Seq<u8>) -> bool {
    d.len() >= width_start(d) + 8 && le_value(d.subrange(width_start(d), width_start(d) + 8)) <= usize::MAX
}

/// Whether the height can be read from map file `d`.
pub open spec fn reads_height(d: Seq<u8>) -> bool {
    d.len() >= width_start(d) + 16 && le_value(d.subrange(width_start(d) + 8, width_start(d) + 16))
        <= usize::MAX
}

/// The width stored in map file `d`.
pub open spec fn file_width(d: Seq<u8>) -> nat {
    le_value(d.subrange(width_start(d), width_start(d) + 8))
}

/// The height stored in map file `d`.
pub open spec fn file_height(d: Seq<u8>) -> nat {
    le_value(d.subrange(width_start(d) + 8, width_start(d) + 16))
}

/// The number of tiles of the map in map file `d`.
pub open spec fn tile_count(d: Seq<u8>) -> int {
    (file_width(d) * file_height(d)) as int
}

/// How many tile bytes are present in map file `d`, up to the number the map needs.
pub open spec fn tiles_present(d: Seq<u8>) -> int {
    if d.len() - tiles_start(d) < tile_count(d) {
        d.len() - tiles_start(d)
    } else {
        tile_count(d)
    }
}

/// Whether some byte among the present tile bytes stands for no tile.
pub open spec fn has_invalid_tile(d: Seq<u8>) -> bool {
    exists|k: int| 0 <= k < tiles_present(d) && !Tile::is_tile_byte(#[trigger] d[tiles_start(d) + k])
}

/// The part of map file `d` that its hash is computed over.
pub open spec fn file_content(d: Seq<u8>) -> Seq<u8> {
    d.subrange(width_start(d), tiles_start(d) + tile_count(d))
}

/// The hash stored in map file `d`.
pub open spec fn file_hash(d: Seq<u8>) -> Seq<u8> {
    d.subrange(hash_start(d), hash_start(d) + 32)
}

/// The kind of error that reading map file `d` fails with, as `numeric_error` numbers it,
/// or `None` when it can be read.
pub open spec fn world_error(d: Seq<u8>) -> Option<u8> {
    if d.len() < 9 {
        Some(3)
    } else if d.take(9) != spec_magic() {
        Some(0)
    } else if d.len() < 10 {
        Some(3)
    } else if d[9] != CURRENT_MAP_VERSION {
        Some(2)
    } else if !reads_string(d.skip(10)) {
        Some(4)
    } else if !reads_string(d.skip(author_start(d))) {
        Some(4)
    } else if d.len() < hash_start(d) + 32 {
        Some(3)
    } else if !reads_width(d) {
        Some(4)
    } else if !reads_height(d) {
        Some(4)
    } else if file_width(d) > MAX_MAP_WIDTH || file_width(d) == 0 {
        Some(5)
    } else if file_height(d) > MAX_MAP_HEIGHT || file_height(d) == 0 {
        Some(6)
    } else if has_invalid_tile(d) {
        Some(8)
    } else if d.len() - tiles_start(d) < tile_count(d) {
        Some(7)
    } else if spec_sha256(file_content(d)) != file_hash(d) {
        Some(9)
    } else {
        None
    }
}

/// The data that an error from reading map file `d` carries.
pub open spec fn world_error_data(e: GameWorldParseError, d: Seq<u8>) -> bool {
    match e {
        GameWorldParseError::InvalidMagicBytes { expected, actual } => expected@ == spec_magic()
            && actual@ == d.take(9),
        GameWorldParseError::InvalidVersion { invalid_version } => invalid_version == d[9],
        GameWorldParseError::IOError { io_error } => io_error == IoError::UnexpectedEof,
        GameWorldParseError::InvalidMapWidth { max_width, actual_width } => max_width == MAX_MAP_WIDTH
            && actual_width == file_width(d),
        GameWorldParseError::InvalidMapHeight { max_height, actual_height } => max_height
            == MAX_MAP_HEIGHT && actual_height == file_height(d),
        GameWorldParseError::UnexpectedEndOfTileData { position, io_error } => {
            let k = d.len() - tiles_start(d);
            let x = k % (file_width(d) as int);
            let y = k / (file_width(d) as int);
            &&& io_error == IoError::UnexpectedEof
            &&& position == y * x + x
        },
        GameWorldParseError::InvalidTile { tile_bytes } => exists|k: int|
            0 <= k < tiles_present(d) && !Tile::is_tile_byte(#[trigger] d[tiles_start(d) + k]) && (forall|j: int|
                0 <= j < k ==> Tile::is_tile_byte(#[trigger] d[tiles_start(d) + j])) && tile_bytes == d[tiles_start(d) + k],
        GameWorldParseError::HashMismatch { expected, actual } => expected@ == spec_sha256(file_content(d))
            && actual@ == file_hash(d),
        _ => true,
    }
}

/// The index among the first `n` tile bytes of the last player spawn, if any.
pub open spec fn last_spawn(tiles: Seq<u8>) -> Option<int>
    decreases tiles.len(),
{
    if tiles.len() == 0 {
        None
    } else if tiles.last() == 0x10 {
        Some(tiles.len() - 1)
    } else {
        last_spawn(tiles.drop_last())
    }
}

/// The tile bytes of map file `d`.
pub open spec fn file_tiles(d: Seq<u8>) -> Seq<u8> {
    d.subrange(tiles_start(d), tiles_start(d) + tile_count(d))
}

/// The player spawn after reading map file `d` into a map whose spawn was `base`: the last
/// player spawn tile read, row by row, if any.
pub open spec fn file_spawn(d: Seq<u8>, base: (usize, usize)) -> (usize, usize) {
    match last_spawn(file_tiles(d)) {
        Some(k) => ((k % (file_width(d) as int)) as usize, (k / (file_width(d) as int)) as usize),
        None => base,
    }
}

/// The `n` bytes from `start` on are present and each stands for a tile.
pub open spec fn tile_bytes_valid(d: Seq<u8>, start: int, n: int) -> bool {
    forall|j: int| 0 <= j < n ==> start + j < d.len() && Tile::is_tile_byte(#[trigger] d[start + j])
}

/// The spawn position that the last player spawn among the tile bytes gives, if any.
pub open spec fn spawn_position(tiles: Seq<u8>, width: int) -> Option<(usize, usize)> {
    match last_spawn(tiles) {
        Some(k) => Some(((k % width) as usize, (k / width) as usize)),
        None => None,
    }
}

/// Read the `width * height` tile bytes that start at `pos`, row by row from the bottom row
/// up, into a grid of columns; and the position of the last player spawn among them.
fn parse_tiles(data: &[u8], pos: usize, width: usize, height: usize) -> (r: Result<
    (Vec<Vec<Tile>>, Option<(usize, usize)>),
    GameWorldParseError,
>)
    requires
        pos <= data@.len(),
        1 <= width <= MAX_MAP_WIDTH,
        1 <= height <= MAX_MAP_HEIGHT,
    ensures
        match r {
            Ok((grid, spawn)) => {
                &&& pos + width * height <= data@.len()
                &&& tile_bytes_valid(data@, pos as int, width * height)
                &&& grid@.len() == width
                &&& forall|a: int| 0 <= a < width ==> (#[trigger] grid@[a])@.len() == height
                &&& forall|a: int, b: int|
                    0 <= a < width && 0 <= b < height ==> (#[trigger] grid@[a]@[b]).spec_to_bytes()
                        == data@[pos + row_major(a, b, width as int)] && grid@[a]@[b].has_default_payload()
                &&& spawn == spawn_position(data@.subrange(pos as int, pos + width * height), width as int)
            },
            Err(GameWorldParseError::UnexpectedEndOfTileData { position, io_error }) => {
                let k = data@.len() - pos;
                &&& k < width * height
                &&& tile_bytes_valid(data@, pos as int, k)
                &&& io_error == IoError::UnexpectedEof
                &&& position == (k / (width as int)) * (k % (width as int)) + k % (width as int)
            },
            Err(GameWorldParseError::InvalidTile { tile_bytes }) => exists|k: int|
                0 <= k < width * height && pos + k < data@.len() && !Tile::is_tile_byte(
                    #[trigger] data@[pos + k],
                ) && (forall|j: int| 0 <= j < k ==> Tile::is_tile_byte(#[trigger] data@[pos + j]))
                    && tile_bytes == data@[pos + k],
            Err(_) => false,
        },
{
    let mut grid = air_grid(width, height);
    let mut spawn: Option<(usize, usize)> = None;
    proof {
        assert(width * height <= 1024 * 1024) by (nonlinear_arith)
            requires
                width <= 1024,
                height <= 1024,
        ;
    }
    let mut y: usize = 0;
    let mut base: usize = 0;
    while y < height
        invariant
            pos <= data@.len(),
            1 <= width <= MAX_MAP_WIDTH,
            1 <= height <= MAX_MAP_HEIGHT,
            width * height <= 1024 * 1024,
            y <= height,
            base == y * width,
            base <= width * height,
            pos + base <= data@.len(),
            grid@.len() == width,
            forall|a: int| 0 <= a < width ==> (#[trigger] grid@[a])@.len() == height,
            tile_bytes_valid(data@, pos as int, base as int),
            forall|a: int, b: int|
                0 <= a < width && 0 <= b < height && row_major(a, b, width as int) < base
                    ==> (#[trigger] grid@[a]@[b]).spec_to_bytes() == data@[pos + row_major(a, b, width as int)]
                    && grid@[a]@[b].has_default_payload(),
            spawn == spawn_position(data@.subrange(pos as int, pos + base), width as int),
        decreases height - y,
    {
        let mut x: usize = 0;
        while x < width
            invariant
                pos <= data@.len(),
                1 <= width <= MAX_MAP_WIDTH,
                1 <= height <= MAX_MAP_HEIGHT,
                width * height <= 1024 * 1024,
                y < height,
                x <= width,
                base == y * width,
                base + x <= width * height,
                pos + base + x <= data@.len(),
                grid@.len() == width,
                forall|a: int| 0 <= a < width ==> (#[trigger] grid@[a])@.len() == height,
                tile_bytes_valid(data@, pos as int, base + x),
                forall|a: int, b: int|
                    0 <= a < width && 0 <= b < height && row_major(a, b, width as int) < base + x
                        ==> (#[trigger] grid@[a]@[b]).spec_to_bytes() == data@[pos + row_major(a, b, width as int)]
                        && grid@[a]@[b].has_default_payload(),
                spawn == spawn_position(data@.subrange(pos as int, pos + base + x), width as int),
            decreases width - x,
        {
            proof {
                lemma_row_major(x as int, y as int, width as int, height as int);
                assert(y * x <= 1024 * 1024) by (nonlinear_arith)
                    requires
                        y < 1024,
                        x < 1024,
                ;
            }
            let k: usize = base + x;
            if k >= data.len() - pos {
                proof {
                    assert(data@.len() - pos == k);
                }
                return Err(
                    GameWorldParseError::UnexpectedEndOfTileData {
                        io_error: IoError::UnexpectedEof,
                        position: (y * x) + x,
                    },
                );
            }
            let b = data[pos + k];
            let tile = match Tile::from_bytes(b) {
                Some(t) => t,
                None => {
                    return Err(GameWorldParseError::InvalidTile { tile_bytes: b });
                },
            };
            proof {
                lemma_spawn_byte(tile);
                let prev = data@.subrange(pos as int, pos + k);
                let next = data@.subrange(pos as int, pos + k + 1);
                assert(next.drop_last() =~= prev);
                assert(next.last() == b);
            }
            let is_spawn = match tile.kind() {
                TileKind::PLAYERSPAWN => true,
                _ => false,
            };
            if is_spawn {
                spawn = Some((x, y));
            }
            let ghost before = grid@;
            grid[x][y] = tile;
            proof {
                assert forall|a: int, b: int|
                    0 <= a < width && 0 <= b < height && row_major(a, b, width as int) < base + x + 1
                        implies (#[trigger] grid@[a]@[b]).spec_to_bytes() == data@[pos + row_major(a, b, width as int)]
                        && grid@[a]@[b].has_default_payload() by {
                    lemma_row_major(a, b, width as int, height as int);
                    if a == x && b == y {
                    } else {
                        assert(grid@[a]@[b] == before[a]@[b]);
                    }
                }
            }
            x += 1;
        }
        proof {
            assert((y + 1) * width == y * width + width) by (nonlinear_arith);
        }
        y += 1;
        base = base + width;
    }
    proof {
        assert(height * width == width * height) by (nonlinear_arith);
        assert forall|a: int, b: int| 0 <= a < width && 0 <= b < height implies row_major(a, b, width as int)
            < base by {
            lemma_row_major(a, b, width as int, height as int);
        }
    }
    Ok((grid, spawn))
}

/// What reading the tiles of map file `d` tells about the errors of reading the file.
proof fn lemma_tile_errors(
    d: Seq<u8>,
    r: Result<(Vec<Vec<Tile>>, Option<(usize, usize)>), GameWorldParseError>,
)
    requires
        1 <= file_width(d) <= MAX_MAP_WIDTH,
        1 <= file_height(d) <= MAX_MAP_HEIGHT,
        tiles_start(d) <= d.len(),
        match r {
            Ok((grid, spawn)) => tiles_start(d) + tile_count(d) <= d.len() && tile_bytes_valid(
                d,
                tiles_start(d),
                tile_count(d),
            ),
            Err(GameWorldParseError::UnexpectedEndOfTileData { position, io_error }) => {
                let k = d.len() - tiles_start(d);
                &&& k < tile_count(d)
                &&& tile_bytes_valid(d, tiles_start(d), k)
            },
            Err(GameWorldParseError::InvalidTile { tile_bytes }) => exists|k: int|
                0 <= k < tile_count(d) && tiles_start(d) + k < d.len() && !Tile::is_tile_byte(
                    #[trigger] d[tiles_start(d) + k],
                ) && (forall|j: int| 0 <= j < k ==> Tile::is_tile_byte(#[trigger] d[tiles_start(d) + j]))
                    && tile_bytes == d[tiles_start(d) + k],
            Err(_) => false,
        },
    ensures
        r is Ok ==> !has_invalid_tile(d) && d.len() - tiles_start(d) >= tile_count(d),
        r matches Err(GameWorldParseError::UnexpectedEndOfTileData { .. }) ==> !has_invalid_tile(d) && d.len()
            - tiles_start(d) < tile_count(d),
        r matches Err(GameWorldParseError::InvalidTile { .. }) ==> has_invalid_tile(d),
{
    let ts = tiles_start(d);
    match r {
        Ok(_) => {
            assert forall|k: int| 0 <= k < tiles_present(d) implies Tile::is_tile_byte(#[trigger] d[ts + k]) by {
                assert(ts + k < d.len());
            }
        },
        Err(GameWorldParseError::UnexpectedEndOfTileData { .. }) => {
            assert forall|k: int| 0 <= k < tiles_present(d) implies Tile::is_tile_byte(#[trigger] d[ts + k]) by {
                assert(ts + k < d.len());
            }
        },
        Err(GameWorldParseError::InvalidTile { tile_bytes }) => {
            let k = choose|k: int|
                0 <= k < tile_count(d) && ts + k < d.len() && !Tile::is_tile_byte(#[trigger] d[ts + k]) && (forall|j: int|
                    0 <= j < k ==> Tile::is_tile_byte(#[trigger] d[ts + j])) && tile_bytes == d[ts + k];
            assert(0 <= k < tiles_present(d));
        },
        Err(_) => {},
    }
}

/// Read a string at position `pos`, and the position after it.
fn parse_current_version_string(data: &[u8], pos: usize) -> (r: Result<(String, usize), GameWorldParseError>)
    requires
        pos <= data@.len(),
    ensures
        r is Ok <==> reads_string(data@.skip(pos as int)),
        r matches Ok((s, next)) ==> s@ == read_string_value(data@.skip(pos as int)) && next == pos + string_len(
            data@.skip(pos as int),
        ) && next <= data@.len(),
        r matches Err(e) ==> e is BincodeError,
{
    let rest = tail(data, pos);
    assert(rest@ =~= data@.skip(pos as int));
    match deserialize_string(rest) {
        Ok(s) => {
            let as_str = s.as_str();
            let len: usize = as_str.len();
            proof {
                let bytes = rest@.subrange(8, 8 + le_value(rest@.take(8)) as int);
                vstd::utf8::decode_utf8_encode_utf8(bytes);
                assert(as_str@ == s@);
                assert(len == encode_utf8(s@).len());
                assert(len == le_value(rest@.take(8)));
                assert(rest@.len() == data@.len() - pos);
            }
            let total: usize = data.len();
            assert(pos + 8 + len <= total);
            Ok((s, pos + 8 + len))
        },
        Err(e) => Err(GameWorldParseError::BincodeError { bincode_error: e }),
    }
}

/// Read the 32 bytes of a hash at position `pos`.
fn parse_current_version_uuid(data: &[u8], pos: usize) -> (r: Result<[u8; 32], GameWorldParseError>)
    requires
        pos <= data@.len(),
    ensures
        r is Ok <==> pos + 32 <= data@.len(),
        r matches Ok(h) ==> h@ == data@.subrange(pos as int, pos + 32),
        r matches Err(e) ==> e == (GameWorldParseError::IOError { io_error: IoError::UnexpectedEof }),
{
    if data.len() - pos < 32 {
        return Err(GameWorldParseError::IOError { io_error: IoError::UnexpectedEof });
    }
    let mut buf = [0u8; 32];
    let mut i: usize = 0;
    while i < 32
        invariant
            i <= 32,
            pos + 32 <= data.len(),
            buf@.len() == 32,
            forall|j: int| 0 <= j < i ==> buf@[j] == data@[pos + j],
        decreases 32 - i,
    {
        buf[i] = data[pos + i];
        i += 1;
    }
    assert(buf@ =~= data@.subrange(pos as int, pos + 32));
    Ok(buf)
}

/// Read a width or height at position `pos`.
fn parse_dimension(data: &[u8], pos: usize) -> (r: Result<usize, GameWorldParseError>)
    requires
        pos <= data@.len(),
    ensures
        r is Ok <==> (pos + 8 <= data@.len() && le_value(data@.subrange(pos as int, pos + 8)) <= usize::MAX),
        r matches Ok(v) ==> v == le_value(data@.subrange(pos as int, pos + 8)),
        r matches Err(e) ==> e is BincodeError,
{
    let rest = tail(data, pos);
    proof {
        if rest@.len() >= 8 {
            assert(rest@.take(8) =~= data@.subrange(pos as int, pos + 8));
        }
    }
    match deserialize_usize(rest) {
        Ok(v) => Ok(v),
        Err(e) => Err(GameWorldParseError::BincodeError { bincode_error: e }),
    }
}

/// Whether two hashes are equal.
pub(crate) fn hashes_equal(a: &[u8; 32], b: &[u8; 32]) -> (r: bool)
    ensures
        r <==> a@ == b@,
{
    let mut i: usize = 0;
    while i < 32
        invariant
            i <= 32,
            a@.len() == 32,
            b@.len() == 32,
            forall|j: int| 0 <= j < i ==> a@[j] == b@[j],
        decreases 32 - i,
    {
        if a[i] != b[i] {
            return false;
        }
        i += 1;
    }
    assert(a@ =~= b@);
    true
}

impl GameWorld {
    /// Write this map in the map file format.
    pub fn serialize(&self) -> (r: Result<Vec<u8>, GameWorldParseError>)
        ensures
            r is Ok,
            r matches Ok(b) ==> b@ == self.spec_file_bytes(),
    {
        let mut out: Vec<u8> = Vec::new();
        // Write magic bytes
        let mut i: usize = 0;
        while i < 9
            invariant
                i <= 9,
                MAGICBYTES@ == spec_magic(),
                out@ == spec_magic().take(i as int),
            decreases 9 - i,
        {
            assert(spec_magic().take(i + 1) =~= spec_magic().take(i as int).push(spec_magic()[i as int]));
            out.push(MAGICBYTES[i]);
            i += 1;
        }
        assert(spec_magic().take(9) =~= spec_magic());
        // Write Map Version
        out.push(CURRENT_MAP_VERSION);
        // Write Map Name
        let mut name_b = match serialize_string(self.get_name()) {
            Ok(b) => b,
            Err(e) => return Err(GameWorldParseError::BincodeError { bincode_error: e }),
        };
        out.append(&mut name_b);
        // Write Map Author
        let mut author_b = match serialize_string(self.get_author()) {
            Ok(b) => b,
            Err(e) => return Err(GameWorldParseError::BincodeError { bincode_error: e }),
        };
        out.append(&mut author_b);
        // Write cached hash
        let hash = self.hash();
        let ghost before_hash = out@;
        let mut i: usize = 0;
        while i < 32
            invariant
                i <= 32,
                hash@.len() == 32,
                out@ == before_hash + hash@.take(i as int),
            decreases 32 - i,
        {
            assert(hash@.take(i + 1) =~= hash@.take(i as int).push(hash@[i as int]));
            out.push(hash[i]);
            i += 1;
        }
        assert(hash@.take(32) =~= hash@);
        let mut content = match self.serialize_world_content() {
            Ok(b) => b,
            Err(e) => return Err(e),
        };
        out.append(&mut content);
        assert(out@ =~= self.spec_file_bytes());
        Ok(out)
    }
}

impl GameWorld {
    /// Read a map file into this map: its name, author, hash, size and tiles, and the
    /// position of the last player spawn tile in it, if there is one. The file name, the dirty
    /// state, the messages and the forced tile set stay as they were. Reading fails, and the
    /// map stays as it was, when the file is not a valid map file or its hash does not match
    /// its content.
    pub fn parse(&mut self, data: &[u8]) -> (r: Result<(), GameWorldParseError>)
        ensures
            r is Ok <==> world_error(data@) is None,
            r matches Err(e) ==> world_error(data@) == Some(e.spec_numeric_error()) && world_error_data(e, data@),
            r is Err ==> *final(self) == *old(self),
            r is Ok ==> {
                &&& final(self).spec_name() == read_string_value(data@.skip(10))
                &&& final(self).spec_author() == read_string_value(data@.skip(author_start(data@)))
                &&& final(self).spec_hash() == file_hash(data@)
                &&& final(self).spec_width() == file_width(data@)
                &&& final(self).spec_height() == file_height(data@)
                &&& forall|x: int, y: int|
                    final(self).in_bounds(x, y) ==> (#[trigger] final(self).spec_tile(x, y)).spec_to_bytes()
                        == data@[tiles_start(data@) + row_major(x, y, file_width(data@) as int)]
                        && final(self).spec_tile(x, y).has_default_payload()
                &&& final(self).spec_spawn() == file_spawn(data@, old(self).spec_spawn())
                &&& final(self).spec_filename() == old(self).spec_filename()
                &&& final(self).spec_clean() == old(self).spec_clean()
                &&& final(self).spec_messages() == old(self).spec_messages()
                &&& final(self).spec_forced_tileset() == old(self).spec_forced_tileset()
            },
    {
        // Parse Magic Bytes
        if data.len() < 9 {
            return Err(GameWorldParseError::IOError { io_error: IoError::UnexpectedEof });
        }
        let actual: [u8; 9] = [data[0], data[1], data[2], data[3], data[4], data[5], data[6], data[7], data[8]];
        assert(actual@ =~= data@.take(9));
        assert(MAGICBYTES@ =~= spec_magic());
        let mut i: usize = 0;
        while i < 9
            invariant
                i <= 9,
                actual@.len() == 9,
                actual@ == data@.take(9),
                data@.len() >= 9,
                MAGICBYTES@ == spec_magic(),
                forall|j: int| 0 <= j < i ==> actual@[j] == spec_magic()[j],
            decreases 9 - i,
        {
            if actual[i] != MAGICBYTES[i] {
                assert(data@.take(9)[i as int] != spec_magic()[i as int]);
                assert(data@.take(9) != spec_magic());
                return Err(GameWorldParseError::InvalidMagicBytes { expected: MAGICBYTES, actual });
            }
            i += 1;
        }
        assert(actual@ =~= spec_magic());
        // Parse Map Format
        if data.len() < 10 {
            return Err(GameWorldParseError::IOError { io_error: IoError::UnexpectedEof });
        }
        let version = data[9];
        if version != CURRENT_MAP_VERSION {
            return Err(GameWorldParseError::InvalidVersion { invalid_version: version });
        }
        self.parse_current_version(data)
    }

    /// Parse a map with the current version, whose data starts behind the version byte.
    fn parse_current_version(&mut self, data: &[u8]) -> (r: Result<(), GameWorldParseError>)
        requires
            data@.len() >= 10,
            data@.take(9) == spec_magic(),
            data@[9] == CURRENT_MAP_VERSION,
        ensures
            r is Ok <==> world_error(data@) is None,
            r matches Err(e) ==> world_error(data@) == Some(e.spec_numeric_error()) && world_error_data(e, data@),
            r is Err ==> *final(self) == *old(self),
            r is Ok ==> {
                &&& final(self).spec_name() == read_string_value(data@.skip(10))
                &&& final(self).spec_author() == read_string_value(data@.skip(author_start(data@)))
                &&& final(self).spec_hash() == file_hash(data@)
                &&& final(self).spec_width() == file_width(data@)
                &&& final(self).spec_height() == file_height(data@)
                &&& forall|x: int, y: int|
                    final(self).in_bounds(x, y) ==> (#[trigger] final(self).spec_tile(x, y)).spec_to_bytes()
                        == data@[tiles_start(data@) + row_major(x, y, file_width(data@) as int)]
                        && final(self).spec_tile(x, y).has_default_payload()
                &&& final(self).spec_spawn() == file_spawn(data@, old(self).spec_spawn())
                &&& final(self).spec_filename() == old(self).spec_filename()
                &&& final(self).spec_clean() == old(self).spec_clean()
                &&& final(self).spec_messages() == old(self).spec_messages()
                &&& final(self).spec_forced_tileset() == old(self).spec_forced_tileset()
            },
    {
        let ghost d = data@;
        // Parse Map Name
        let (name, author_pos) = parse_current_version_string(data, 10)?;
        // Parse Map Author
        let (author, hash_pos) = parse_current_version_string(data, author_pos)?;
        assert(author_pos == author_start(d));
        assert(hash_pos == hash_start(d));
        let hash = match parse_current_version_uuid(data, hash_pos) {
            Ok(h) => h,
            Err(e) => return Err(e),
        };
        // Parse Map Width and Map Height
        let total: usize = data.len();
        let width_pos = hash_pos + 32;
        let map_width = match parse_dimension(data, width_pos) {
            Ok(w) => w,
            Err(e) => return Err(e),
        };
        assert(width_pos + 8 <= total);
        let map_height = match parse_dimension(data, width_pos + 8) {
            Ok(h) => h,
            Err(e) => return Err(e),
        };
        if map_width > MAX_MAP_WIDTH || map_width == 0 {
            return Err(
                GameWorldParseError::InvalidMapWidth { max_width: MAX_MAP_WIDTH, actual_width: map_width },
            );
        }
        if map_height > MAX_MAP_HEIGHT || map_height == 0 {
            return Err(
                GameWorldParseError::InvalidMapHeight { max_height: MAX_MAP_HEIGHT, actual_height: map_height },
            );
        }
        let tiles_pos = width_pos + 16;
        proof {
            assert(map_width * map_height <= 1024 * 1024) by (nonlinear_arith)
                requires
                    map_width <= 1024,
                    map_height <= 1024,
            ;
        }
        // Parse actual map content
        let parsed = parse_tiles(data, tiles_pos, map_width, map_height);
        proof {
            lemma_tile_errors(d, parsed);
        }
        let (grid, spawn) = parsed?;
        // Check the hash
        let content_end: usize = tiles_pos + map_width * map_height;
        let content = &data[width_pos..content_end];
        let new_hash = sha256(content);
        proof {
            assert(content@ =~= file_content(d));
            assert(hash@ == file_hash(d));
        }
        if !hashes_equal(&new_hash, &hash) {
            return Err(GameWorldParseError::HashMismatch { expected: new_hash, actual: hash });
        }
        proof {
            assert(data@.subrange(tiles_pos as int, tiles_pos + map_width * map_height) =~= file_tiles(d));
        }
        self.install(name, author, hash, grid, spawn);
        Ok(())
    }
}

impl GameWorld {
    /// The tiles of the map as bytes, row by row from the bottom row up.
    pub open spec fn spec_tile_bytes(self) -> Seq<u8> {
        Seq::new(
            self.spec_width() * self.spec_height(),
            |k: int| self.spec_tile(k % (self.spec_width() as int), k / (self.spec_width() as int)).spec_to_bytes(),
        )
    }

    /// The part of a map file that its hash is computed over: width, height and tiles.
    pub open spec fn spec_content_bytes(self) -> Seq<u8> {
        le_bytes(self.spec_width(), 8) + le_bytes(self.spec_height(), 8) + self.spec_tile_bytes()
    }

    /// A whole map file.
    pub open spec fn spec_file_bytes(self) -> Seq<u8> {
        spec_magic() + seq![CURRENT_MAP_VERSION] + string_bytes(self.spec_name()) + string_bytes(
            self.spec_author(),
        ) + self.spec_hash() + self.spec_content_bytes()
    }

    /// The width, height and tiles of the map, as the hash is computed over them.
    pub(crate) fn serialize_world_content(&self) -> (r: Result<Vec<u8>, GameWorldParseError>)
        ensures
            r is Ok,
            r matches Ok(b) ==> b@ == self.spec_content_bytes(),
    {
        let width = self.width();
        let height = self.height();
        let mut out: Vec<u8> = Vec::new();
        let mut width_b = match serialize_usize(width) {
            Ok(b) => b,
            Err(e) => return Err(GameWorldParseError::BincodeError { bincode_error: e }),
        };
        out.append(&mut width_b);
        let mut height_b = match serialize_usize(height) {
            Ok(b) => b,
            Err(e) => return Err(GameWorldParseError::BincodeError { bincode_error: e }),
        };
        out.append(&mut height_b);
        let ghost header = out@;
        let ghost tiles = self.spec_tile_bytes();
        let mut y: usize = 0;
        while y < height
            invariant
                y <= height,
                width == self.spec_width(),
                height == self.spec_height(),
                tiles == self.spec_tile_bytes(),
                out@ == header + tiles.take(y * width),
            decreases height - y,
        {
            let mut x: usize = 0;
            while x < width
                invariant
                    y < height,
                    x <= width,
                    width == self.spec_width(),
                    height == self.spec_height(),
                    tiles == self.spec_tile_bytes(),
                    out@ == header + tiles.take(y * width + x),
                decreases width - x,
            {
                proof {
                    lemma_row_major(x as int, y as int, width as int, height as int);
                    assert(tiles.take(y * width + x + 1) =~= tiles.take(y * width + x).push(tiles[y * width + x]));
                }
                out.push(self.tile_at(x, y).to_bytes());
                x += 1;
            }
            proof {
                assert((y + 1) * width == y * width + width) by (nonlinear_arith);
            }
            y += 1;
        }
        proof {
            assert(height * width == width * height) by (nonlinear_arith);
            assert(tiles.take(height * width) =~= tiles);
        }
        Ok(out)
    }
}

/// A map written in the map file format reads back: the file is valid, and holds the map's
/// name, author, hash, width, height and tiles, provided the map has a size that map files
/// allow, holds only tiles that map files can hold (no message tile but that of message 0, no
/// named campaign entry point) and carries the hash of its content.
pub proof fn lemma_world_file_round_trip(w: GameWorld)
    requires
        1 <= w.spec_width() <= MAX_MAP_WIDTH,
        1 <= w.spec_height() <= MAX_MAP_HEIGHT,
        forall|x: int, y: int| w.in_bounds(x, y) ==> (#[trigger] w.spec_tile(x, y)).has_default_payload(),
        w.spec_hash() == spec_sha256(w.spec_content_bytes()),
        encode_utf8(w.spec_name()).len() <= usize::MAX,
        encode_utf8(w.spec_author()).len() <= usize::MAX,
    ensures
        world_error(w.spec_file_bytes()) is None,
        read_string_value(w.spec_file_bytes().skip(10)) == w.spec_name(),
        read_string_value(w.spec_file_bytes().skip(author_start(w.spec_file_bytes()))) == w.spec_author(),
        file_hash(w.spec_file_bytes()) == w.spec_hash(),
        file_width(w.spec_file_bytes()) == w.spec_width(),
        file_height(w.spec_file_bytes()) == w.spec_height(),
        forall|x: int, y: int, t: Tile|
            #![trigger t.eqv(w.spec_tile(x, y))]
            w.in_bounds(x, y) && t.has_default_payload() && t.spec_to_bytes() == w.spec_file_bytes()[tiles_start(
                w.spec_file_bytes(),
            ) + row_major(x, y, w.spec_width() as int)] ==> t.eqv(w.spec_tile(x, y)),
{
    let d = w.spec_file_bytes();
    let name = w.spec_name();
    let author = w.spec_author();
    let h = w.spec_hash();
    let c = w.spec_content_bytes();
    let tb = w.spec_tile_bytes();
    let wd = w.spec_width() as int;
    let ht = w.spec_height() as int;
    let sn = string_bytes(name);
    let sa = string_bytes(author);
    w.lemma_hash_len();
    lemma_pow256_values();
    lemma_le_round_trip(w.spec_width(), 8);
    lemma_le_round_trip(w.spec_height(), 8);
    assert(tb.len() == wd * ht);
    assert(d =~= spec_magic() + seq![CURRENT_MAP_VERSION] + sn + sa + h + c);
    assert(d.take(9) =~= spec_magic());
    assert(d[9] == CURRENT_MAP_VERSION);
    // The name
    assert(d.skip(10) =~= sn + (sa + h + c));
    lemma_string_round_trip(name, sa + h + c);
    let a_start: int = 10 + sn.len() as int;
    assert(author_start(d) == a_start);
    // The author
    assert(d.skip(a_start) =~= sa + (h + c));
    lemma_string_round_trip(author, h + c);
    let h_start: int = a_start + sa.len() as int;
    assert(hash_start(d) == h_start);
    assert(file_hash(d) =~= h);
    // Width, height and tiles
    let w_start: int = h_start + 32;
    assert(width_start(d) == w_start);
    assert(d.subrange(w_start, w_start + 8) =~= le_bytes(w.spec_width(), 8));
    assert(d.subrange(w_start + 8, w_start + 16) =~= le_bytes(w.spec_height(), 8));
    assert(file_width(d) == wd);
    assert(file_height(d) == ht);
    let t_start: int = w_start + 16;
    assert(tiles_start(d) == t_start);
    assert(d.len() == t_start + wd * ht);
    assert(file_content(d) =~= c);
    assert forall|k: int| 0 <= k < wd * ht implies d[t_start + k] == tb[k] by {
        assert(d[t_start + k] == c[16 + k]);
    }
    assert forall|k: int| 0 <= k < tiles_present(d) implies Tile::is_tile_byte(#[trigger] d[tiles_start(d) + k]) by {
        vstd::arithmetic::div_mod::lemma_mod_pos_bound(k, wd);
        vstd::arithmetic::div_mod::lemma_multiply_divide_lt(k, wd, ht);
        vstd::arithmetic::div_mod::lemma_div_pos_is_pos(k, wd);
        let t = w.spec_tile(k % wd, k / wd);
        assert(w.in_bounds(k % wd, k / wd));
        lemma_tile_byte_round_trip(t, t);
        assert(d[t_start + k] == tb[k]);
    }
    assert forall|x: int, y: int, t: Tile|
        w.in_bounds(x, y) && t.has_default_payload() && t.spec_to_bytes() == d[tiles_start(d) + row_major(x, y, wd)]
            implies t.eqv(w.spec_tile(x, y)) by {
        lemma_row_major(x, y, wd, ht);
        let k = row_major(x, y, wd);
        assert(d[t_start + k] == tb[k]);
        lemma_tile_byte_round_trip(w.spec_tile(x, y), t);
    }
}

} // verus!
