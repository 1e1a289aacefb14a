//! A single result: the moves taken and the coins collected. Its binary format is the
//! version byte 0x01 and the two numbers as four bytes each, least significant first.
use crate::codec::{
    deserialize_u32, le_bytes, le_value, lemma_le_round_trip, lemma_pow256_values, serialize_u32, tail,
};
use crate::highscores::io_error::{error_is, HighscoreParseError, ReadError};
use crate::io_error::IoError;
use vstd::prelude::*;

verus! {

/// The version of the binary format of a single result.
pub const HIGHSCORE_VERSION: u8 = 0x01;

/// A single high score record
#[derive(PartialEq, Eq, Debug, Copy, Clone, Structural)]
pub struct Highscore {
    pub num_moves: u32,
    pub num_coins: u32,
}

impl Highscore {
    pub fn new(num_moves: u32, num_coins: u32) -> (r: Self)
        ensures
            r.num_moves == num_moves,
            r.num_coins == num_coins,
    {
        Highscore { num_moves, num_coins }
    }

    pub fn moves(&self) -> (r: u32)
        ensures
            r == self.num_moves,
    {
        self.num_moves
    }

    pub fn coins(&self) -> (r: u32)
        ensures
            r == self.num_coins,
    {
        self.num_coins
    }
}

impl Default for Highscore {
    fn default() -> (r: Self)
        ensures
            r.num_moves == 0,
            r.num_coins == 0,
    {
        Highscore { num_moves: 0, num_coins: 0 }
    }
}

/// A result in the binary format.
pub open spec fn highscore_bytes(h: Highscore) -> Seq<u8> {
    seq![HIGHSCORE_VERSION] + le_bytes(h.num_moves as nat, 4) + le_bytes(h.num_coins as nat, 4)
}

/// Read a result at position `pos` of `d`: the result and the position after it.
pub open spec fn read_highscore(d: Seq<u8>, pos: int) -> Result<(Highscore, int), ReadError> {
    if pos >= d.len() {
        Err(ReadError::Eof)
    } else if d[pos] != HIGHSCORE_VERSION {
        Err(ReadError::Version { byte: d[pos] })
    } else if d.len() < pos + 5 {
        Err(ReadError::Bincode)
    } else if d.len() < pos + 9 {
        Err(ReadError::Bincode)
    } else {
        Ok(
            (
                Highscore {
                    num_moves: le_value(d.subrange(pos + 1, pos + 5)) as u32,
                    num_coins: le_value(d.subrange(pos + 5, pos + 9)) as u32,
                },
                pos + 9,
            ),
        )
    }
}

/// A result written in the binary format reads back as the same result, wherever it stands.
pub proof fn lemma_highscore_round_trip(h: Highscore, d: Seq<u8>, pos: int)
    requires
        0 <= pos,
        pos + 9 <= d.len(),
        d.subrange(pos, pos + 9) == highscore_bytes(h),
    ensures
        read_highscore(d, pos) == Ok::<(Highscore, int), ReadError>((h, pos + 9)),
{
    lemma_pow256_values();
    lemma_le_round_trip(h.num_moves as nat, 4);
    lemma_le_round_trip(h.num_coins as nat, 4);
    let b = highscore_bytes(h);
    assert(d[pos] == b[0]);
    assert(d.subrange(pos + 1, pos + 5) =~= b.subrange(1, 5));
    assert(b.subrange(1, 5) =~= le_bytes(h.num_moves as nat, 4));
    assert(d.subrange(pos + 5, pos + 9) =~= b.subrange(5, 9));
    assert(b.subrange(5, 9) =~= le_bytes(h.num_coins as nat, 4));
}

impl Highscore {
    /// Write this result in the binary format.
    pub fn serialize(&self) -> (r: Result<Vec<u8>, HighscoreParseError>)
        ensures
            r is Ok,
            r matches Ok(b) ==> b@ == highscore_bytes(*self),
    {
        let mut out: Vec<u8> = Vec::new();
        out.push(HIGHSCORE_VERSION);
        self.write_into(&mut out);
        assert(out@ =~= highscore_bytes(*self));
        Ok(out)
    }

    /// Append the two numbers of this result.
    pub(crate) fn write_into(&self, out: &mut Vec<u8>)
        ensures
            final(out)@ == old(out)@ + le_bytes(self.num_moves as nat, 4) + le_bytes(self.num_coins as nat, 4),
    {
        let mut moves_b = match serialize_u32(self.num_moves) {
            Ok(b) => b,
            Err(_) => Vec::new(),
        };
        out.append(&mut moves_b);
        let mut coins_b = match serialize_u32(self.num_coins) {
            Ok(b) => b,
            Err(_) => Vec::new(),
        };
        out.append(&mut coins_b);
    }

    /// Read a result at position `pos`: the result and the position after it.
    pub(crate) fn read(data: &[u8], pos: usize) -> (r: Result<(Highscore, usize), HighscoreParseError>)
        requires
            pos <= data@.len(),
        ensures
            match read_highscore(data@, pos as int) {
                Ok((h, p)) => (r matches Ok((h2, p2)) && h2 == h && p2 == p),
                Err(e) => (r matches Err(e2) && error_is(e2, e)),
            },
    {
        if pos >= data.len() {
            return Err(HighscoreParseError::IOError { io_error: IoError::UnexpectedEof });
        }
        if data[pos] != HIGHSCORE_VERSION {
            return Err(HighscoreParseError::InvalidVersion { invalid_version: data[pos] });
        }
        let moves = match deserialize_u32(tail(data, pos + 1)) {
            Ok(v) => v,
            Err(e) => return Err(HighscoreParseError::BincodeError { bincode_error: e }),
        };
        let coins = match deserialize_u32(tail(data, pos + 5)) {
            Ok(v) => v,
            Err(e) => return Err(HighscoreParseError::BincodeError { bincode_error: e }),
        };
        proof {
            assert(data@.subrange(pos + 1, data@.len() as int).take(4) =~= data@.subrange(pos + 1, pos + 5));
            assert(data@.subrange(pos + 5, data@.len() as int).take(4) =~= data@.subrange(pos + 5, pos + 9));
        }
        Ok((Highscore { num_moves: moves, num_coins: coins }, pos + 9))
    }

    /// Read a result from the start of `data` into this one. Reading fails, and the result
    /// stays as it was, when the data is too short or does not start with the version byte.
    pub fn parse(&mut self, data: &[u8]) -> (r: Result<(), HighscoreParseError>)
        ensures
            match read_highscore(data@, 0) {
                Ok((h, p)) => r is Ok && *final(self) == h,
                Err(e) => (r matches Err(e2) && error_is(e2, e)) && *final(self) == *old(self),
            },
    {
        match Highscore::read(data, 0) {
            Ok((h, _)) => {
                *self = h;
                Ok(())
            },
            Err(e) => Err(e),
        }
    }
}

} // verus!
