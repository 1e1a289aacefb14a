//! A highscores database: the results of all players on all maps, by the hash of the map.
//!
//! The binary format is the magic bytes "ExodusHighscoreDB" and a line feed, the version byte
//! 0x01, the number of maps as eight bytes, and for each map its hash as 32 bytes followed by
//! the map's results.
use crate::codec::{deserialize_usize, le_bytes, le_value, lemma_le_round_trip, lemma_pow256_values, serialize_usize, tail};
use crate::highscores::highscore::Highscore;
use crate::highscores::highscore_records::{
    lemma_put_player_keeps_valid, lemma_records_round_trip, put_player, read_records, records_best, records_bytes,
    records_writable, valid_players, HighscoreRecords, RecordsView,
};
use crate::highscores::io_error::{error_is, spec_db_magic, HighscoreParseError, ReadError};
use crate::highscores::player_highscores::{current_time_millis, PlayerHighscoresWrapper};
use crate::io_error::IoError;
use crate::world::io::hashes_equal;
use vstd::prelude::*;

verus! {

/// The magic bytes that a highscores database starts with.
pub const MAGICBYTES: [u8; 18] = [
    0x45, 0x78, 0x6f, 0x64, 0x75, 0x73, 0x48, 0x69, 0x67, 0x68, 0x73, 0x63, 0x6f, 0x72, 0x65, 0x44, 0x42, 0x0a,
];

/// The version of the binary format of a highscores database.
pub const DATABASE_VERSION: u8 = 0x01;

/// A highscores database, containing the highscores for an arbitrary number of maps
pub struct HighscoresDatabase {
    records: Vec<HighscoreRecords>,
}

/// The maps' results as plain values.
pub open spec fn maps_of(v: Seq<HighscoreRecords>) -> Seq<RecordsView> {
    v.map_values(|r: HighscoreRecords| r@)
}

/// Replacing one map's results replaces its plain value.
broadcast proof fn lemma_maps_of_update(v: Seq<HighscoreRecords>, i: int, r: HighscoreRecords)
    requires
        0 <= i < v.len(),
    ensures
        #[trigger] maps_of(v.update(i, r)) == maps_of(v).update(i, r@),
{
    assert(maps_of(v.update(i, r)) =~= maps_of(v).update(i, r@));
}

/// Whether some map's results carry the hash `h`.
pub open spec fn has_map(ms: Seq<RecordsView>, h: Seq<u8>) -> bool {
    exists|i: int| 0 <= i < ms.len() && #[trigger] ms[i].hash == h
}

/// `i` is the first map whose results carry the hash `h`.
pub open spec fn first_map(ms: Seq<RecordsView>, h: Seq<u8>, i: int) -> bool {
    &&& 0 <= i < ms.len()
    &&& ms[i].hash == h
    &&& forall|j: int| 0 <= j < i ==> #[trigger] ms[j].hash != h
}

/// No two maps' results carry the same hash.
pub open spec fn unique_maps(ms: Seq<RecordsView>) -> bool {
    forall|i: int, j: int| 0 <= i < j < ms.len() ==> #[trigger] ms[i].hash != #[trigger] ms[j].hash
}

/// The maps after storing the result `w` of the player `name` on the map with hash `h`: into
/// the first map's results with that hash, or into new results for that map at the end.
pub open spec fn put_map(ms: Seq<RecordsView>, h: Seq<u8>, name: Seq<char>, w: PlayerHighscoresWrapper) -> Seq<
    RecordsView,
> {
    if has_map(ms, h) {
        let i = choose|i: int| first_map(ms, h, i);
        ms.update(i, RecordsView { hash: ms[i].hash, players: put_player(ms[i].players, name, w) })
    } else {
        ms.push(RecordsView { hash: h, players: put_player(Seq::empty(), name, w) })
    }
}

/// The best result of the player `name` on the first map with hash `h`, if there is one.
pub open spec fn database_best(ms: Seq<RecordsView>, h: Seq<u8>, name: Seq<char>) -> Option<PlayerHighscoresWrapper> {
    if has_map(ms, h) {
        records_best(ms[choose|i: int| first_map(ms, h, i)].players, name)
    } else {
        None
    }
}

impl HighscoresDatabase {
    pub closed spec fn spec_view(self) -> Seq<RecordsView> {
        maps_of(self.records@)
    }
}

impl View for HighscoresDatabase {
    type V = Seq<RecordsView>;

    open spec fn view(&self) -> Seq<RecordsView> {
        self.spec_view()
    }
}

impl Default for HighscoresDatabase {
    fn default() -> (r: Self)
        ensures
            r@ == Seq::<RecordsView>::empty(),
    {
        Self::new()
    }
}

impl HighscoresDatabase {
    /// Initialize a new empty database
    pub fn new() -> (r: Self)
        ensures
            r@ == Seq::<RecordsView>::empty(),
    {
        let r = HighscoresDatabase { records: Vec::new() };
        assert(r@ =~= Seq::<RecordsView>::empty());
        r
    }

    /// The position of the first map's results with hash `map`, if there are any.
    fn find(&self, map: &[u8; 32]) -> (r: Option<usize>)
        ensures
            r is None <==> !has_map(self@, map@),
            r matches Some(i) ==> first_map(self@, map@, i as int),
    {
        let mut i: usize = 0;
        while i < self.records.len()
            invariant
                i <= self.records@.len(),
                forall|j: int| 0 <= j < i ==> #[trigger] self@[j].hash != map@,
            decreases self.records@.len() - i,
        {
            assert(self@[i as int] == self.records@[i as int]@);
            if hashes_equal(self.records[i].get_hash(), map) {
                return Some(i);
            }
            i += 1;
        }
        proof {
            if has_map(self@, map@) {
                let j = choose|j: int| 0 <= j < self@.len() && #[trigger] self@[j].hash == map@;
                assert(self@[j].hash != map@);
            }
        }
        None
    }

    /// Store the result into the map's results.
    fn put_into(&mut self, map: [u8; 32], player: String, timestamp: i64, highscore: Highscore)
        ensures
            final(self)@ == put_map(old(self)@, map@, player@, PlayerHighscoresWrapper { timestamp, highscore }),
    {
        broadcast use lemma_maps_of_update;
        match self.find(&map) {
            Some(i) => {
                let ghost before = self@;
                let mut rec = HighscoreRecords::new([0u8; 32]);
                let mut records: Vec<HighscoreRecords> = Vec::new();
                std::mem::swap(&mut records, &mut self.records);
                std::mem::swap(&mut rec, &mut records[i]);
                rec.put(player, timestamp, highscore);
                let ghost stored = rec;
                records[i] = rec;
                self.records = records;
                proof {
                    let k = choose|k: int| first_map(before, map@, k);
                    if k < i {
                        assert(before[k].hash != map@);
                    } else if k > i {
                        assert(before[i as int].hash != map@);
                    }
                    assert(self@ =~= before.update(i as int, stored@));
                }
            },
            None => {
                let ghost before = self.records@;
                let mut rec = HighscoreRecords::new(map);
                rec.put(player, timestamp, highscore);
                self.records.push(rec);
                assert(maps_of(self.records@) =~= maps_of(before).push(rec@));
            },
        }
    }

    /// Put the given highscore into the database, creating all necessary data structures automatically
    pub fn put(&mut self, map: [u8; 32], player: String, timestamp: i64, highscore: Highscore) -> (r: &mut Self)
        ensures
            r@ == put_map(old(self)@, map@, player@, PlayerHighscoresWrapper { timestamp, highscore }),
            *final(self) == *final(r),
    {
        self.put_into(map, player, timestamp, highscore);
        self
    }

    /// Put the given highscore with the current time into the database, creating all necessary
    /// data structures automatically. What time the clock gives is not known in advance.
    pub fn put_with_current_time(&mut self, map: [u8; 32], player: String, highscore: Highscore) -> (r: &mut Self)
        ensures
            exists|t: i64| r@ == put_map(old(self)@, map@, player@, PlayerHighscoresWrapper { timestamp: t, highscore }),
            *final(self) == *final(r),
    {
        let timestamp = current_time_millis();
        self.put_into(map, player, timestamp, highscore);
        self
    }

    /// Get the (best) highscore for the given map and player
    pub fn get_best(&self, map: &[u8; 32], player: &String) -> (r: Option<(i64, &Highscore)>)
        ensures
            r is Some <==> database_best(self@, map@, player@) is Some,
            r matches Some((t, h)) ==> database_best(self@, map@, player@) == Some(
                PlayerHighscoresWrapper { timestamp: t, highscore: *h },
            ),
    {
        match self.find(map) {
            None => None,
            Some(i) => {
                assert(self@[i as int] == self.records@[i as int]@);
                let ghost k = choose|k: int| first_map(self@, map@, k);
                assert(k == i) by {
                    if k < i {
                        assert(self@[k].hash != map@);
                    } else if k > i {
                        assert(self@[i as int].hash != map@);
                    }
                }
                self.records[i].get_best(player)
            },
        }
    }

    /// Get the size, i.e., the number of maps stored in this database
    pub fn len(&self) -> (r: usize)
        ensures
            r == self@.len(),
    {
        self.records.len()
    }

    /// Check if this highscores database is empty
    pub fn is_empty(&self) -> (r: bool)
        ensures
            r <==> self@.len() == 0,
    {
        self.records.len() == 0
    }

    /// Get the highscore record for the given map
    pub fn get(&self, map: &[u8; 32]) -> (r: Option<&HighscoreRecords>)
        ensures
            r is None <==> !has_map(self@, map@),
            r matches Some(rec) ==> exists|i: int| first_map(self@, map@, i) && rec@ == self@[i],
    {
        match self.find(map) {
            Some(i) => {
                assert(self@[i as int] == self.records@[i as int]@);
                Some(&self.records[i])
            },
            None => None,
        }
    }

    /// Get the highscore record for the given map as mutable reference
    pub fn get_mut(&mut self, map: &[u8; 32]) -> (r: Option<&mut HighscoreRecords>)
        ensures
            r is None <==> !has_map(old(self)@, map@),
            r is None ==> final(self)@ == old(self)@,
            r matches Some(rec) ==> exists|i: int|
                first_map(old(self)@, map@, i) && rec@ == old(self)@[i] && final(self)@ == old(self)@.update(
                    i,
                    final(rec)@,
                ),
    {
        broadcast use lemma_maps_of_update;
        match self.find(map) {
            Some(i) => {
                assert(self@[i as int] == self.records@[i as int]@);
                Some(&mut self.records[i])
            },
            None => None,
        }
    }
}

/// A map's results in the database format: the hash they are stored under, then the results.
pub open spec fn db_entry_bytes(r: RecordsView) -> Seq<u8> {
    r.hash + records_bytes(r)
}

/// The maps' results in the database format, one after the other.
pub open spec fn db_entries_bytes(ms: Seq<RecordsView>) -> Seq<u8>
    decreases ms.len(),
{
    if ms.len() == 0 {
        Seq::empty()
    } else {
        db_entry_bytes(ms[0]) + db_entries_bytes(ms.drop_first())
    }
}

/// Writing one more map's results appends their bytes.
proof fn lemma_db_entries_push(ms: Seq<RecordsView>, r: RecordsView)
    ensures
        db_entries_bytes(ms.push(r)) == db_entries_bytes(ms) + db_entry_bytes(r),
    decreases ms.len(),
{
    let t = ms.push(r);
    if ms.len() == 0 {
        assert(t.drop_first() =~= Seq::<RecordsView>::empty());
        assert(t[0] == r);
        assert(db_entries_bytes(t.drop_first()) =~= Seq::<u8>::empty());
        assert(db_entries_bytes(t) =~= db_entry_bytes(r));
        assert(db_entries_bytes(ms) =~= Seq::<u8>::empty());
    } else {
        assert(t.drop_first() =~= ms.drop_first().push(r));
        lemma_db_entries_push(ms.drop_first(), r);
        assert(db_entries_bytes(t) =~= db_entries_bytes(ms) + db_entry_bytes(r));
    }
}

/// A database in the binary format.
pub open spec fn database_bytes(ms: Seq<RecordsView>) -> Seq<u8> {
    spec_db_magic() + seq![DATABASE_VERSION] + le_bytes(ms.len(), 8) + db_entries_bytes(ms)
}

/// Read `n` maps' results from position `pos` on after the maps `acc`. Results that carry
/// another hash than the one they are stored under, or a hash that an earlier map has, are an
/// error.
pub open spec fn read_db_entries(d: Seq<u8>, pos: int, n: nat, acc: Seq<RecordsView>) -> Result<
    (Seq<RecordsView>, int),
    ReadError,
>
    decreases n,
{
    if n == 0 {
        Ok((acc, pos))
    } else if d.len() < pos + 32 {
        Err(ReadError::Eof)
    } else {
        let h = d.subrange(pos, pos + 32);
        match read_records(d, pos + 32) {
            Err(e) => Err(e),
            Ok((rv, p)) => if rv.hash != h {
                Err(ReadError::HashMismatch { expected: h, actual: rv.hash })
            } else if has_map(acc, h) {
                Err(ReadError::DuplicateDatabase)
            } else {
                read_db_entries(d, p, (n - 1) as nat, acc.push(rv))
            },
        }
    }
}

/// Read the database `d` into a database that holds the maps `init`: the maps read are added
/// after them.
pub open spec fn read_database(d: Seq<u8>, init: Seq<RecordsView>) -> Result<Seq<RecordsView>, ReadError> {
    if d.len() < 18 {
        Err(ReadError::Eof)
    } else if d.take(18) != spec_db_magic() {
        Err(ReadError::Magic { actual: d.take(18) })
    } else if d.len() < 19 {
        Err(ReadError::Eof)
    } else if d[18] != DATABASE_VERSION {
        Err(ReadError::Version { byte: d[18] })
    } else if d.len() < 27 || le_value(d.subrange(19, 27)) > usize::MAX {
        Err(ReadError::Bincode)
    } else {
        match read_db_entries(d, 27, le_value(d.subrange(19, 27)), init) {
            Err(e) => Err(e),
            Ok((ms, p)) => Ok(ms),
        }
    }
}

/// The position of the first map's results in `v` with hash `map`, if there are any.
fn position(v: &Vec<HighscoreRecords>, map: &[u8; 32]) -> (r: Option<usize>)
    ensures
        r is None <==> !has_map(maps_of(v@), map@),
        r matches Some(i) ==> first_map(maps_of(v@), map@, i as int),
{
    let ghost ms = maps_of(v@);
    let mut i: usize = 0;
    while i < v.len()
        invariant
            i <= v@.len(),
            ms == maps_of(v@),
            forall|j: int| 0 <= j < i ==> #[trigger] ms[j].hash != map@,
        decreases v@.len() - i,
    {
        assert(ms[i as int] == v@[i as int]@);
        if hashes_equal(v[i].get_hash(), map) {
            return Some(i);
        }
        i += 1;
    }
    proof {
        if has_map(ms, map@) {
            let j = choose|j: int| 0 <= j < ms.len() && #[trigger] ms[j].hash == map@;
            assert(ms[j].hash != map@);
        }
    }
    None
}

impl HighscoresDatabase {
    /// Write this database in the binary format.
    pub fn serialize(&self) -> (r: Result<Vec<u8>, HighscoreParseError>)
        ensures
            r is Ok,
            r matches Ok(b) ==> b@ == database_bytes(self@),
    {
        let mut out: Vec<u8> = Vec::new();
        let mut i: usize = 0;
        while i < 18
            invariant
                i <= 18,
                MAGICBYTES@ == spec_db_magic(),
                out@ == spec_db_magic().take(i as int),
            decreases 18 - i,
        {
            assert(spec_db_magic().take(i + 1) =~= spec_db_magic().take(i as int).push(spec_db_magic()[i as int]));
            out.push(MAGICBYTES[i]);
            i += 1;
        }
        assert(spec_db_magic().take(18) =~= spec_db_magic());
        out.push(DATABASE_VERSION);
        let mut len_b = match serialize_usize(self.records.len()) {
            Ok(b) => b,
            Err(_) => Vec::new(),
        };
        out.append(&mut len_b);
        let ghost head = out@;
        let ghost ms = self@;
        let mut k: usize = 0;
        while k < self.records.len()
            invariant
                k <= self.records@.len(),
                ms == self@,
                ms.len() == self.records@.len(),
                out@ == head + db_entries_bytes(ms.take(k as int)),
            decreases self.records@.len() - k,
        {
            let ghost before = out@;
            let rec = &self.records[k];
            let h = rec.get_hash();
            let mut j: usize = 0;
            while j < 32
                invariant
                    j <= 32,
                    h@.len() == 32,
                    out@ == before + h@.take(j as int),
                decreases 32 - j,
            {
                assert(h@.take(j + 1) =~= h@.take(j as int).push(h@[j as int]));
                out.push(h[j]);
                j += 1;
            }
            assert(h@.take(32) =~= h@);
            rec.write_into(&mut out);
            proof {
                assert(ms[k as int] == rec@);
                lemma_db_entries_push(ms.take(k as int), ms[k as int]);
                assert(ms.take(k + 1) =~= ms.take(k as int).push(ms[k as int]));
                assert(out@ =~= before + db_entry_bytes(ms[k as int]));
            }
            k += 1;
        }
        assert(ms.take(k as int) =~= ms);
        assert(out@ =~= database_bytes(ms));
        Ok(out)
    }

    /// Read a database into this one: the maps read are added after those it holds. Reading
    /// fails, and the database stays as it was, when the data is not a valid database, when a
    /// map's results carry another hash than they are stored under, or when a map is there
    /// twice or was in the database before.
    pub fn parse(&mut self, data: &[u8]) -> (r: Result<(), HighscoreParseError>)
        ensures
            match read_database(data@, old(self)@) {
                Ok(ms) => r is Ok && final(self)@ == ms,
                Err(e) => (r matches Err(e2) && error_is(e2, e)) && final(self)@ == old(self)@,
            },
    {
        if data.len() < 18 {
            return Err(HighscoreParseError::IOError { io_error: IoError::UnexpectedEof });
        }
        let mut actual = [0u8; 18];
        let mut i: usize = 0;
        while i < 18
            invariant
                i <= 18,
                data@.len() >= 18,
                actual@.len() == 18,
                forall|j: int| 0 <= j < i ==> actual@[j] == data@[j],
            decreases 18 - i,
        {
            actual[i] = data[i];
            i += 1;
        }
        assert(actual@ =~= data@.take(18));
        let mut i: usize = 0;
        while i < 18
            invariant
                i <= 18,
                actual@ == data@.take(18),
                data@.len() >= 18,
                MAGICBYTES@ == spec_db_magic(),
                forall|j: int| 0 <= j < i ==> actual@[j] == spec_db_magic()[j],
            decreases 18 - i,
        {
            if actual[i] != MAGICBYTES[i] {
                assert(data@.take(18)[i as int] != spec_db_magic()[i as int]);
                assert(data@.take(18) != spec_db_magic());
                return Err(HighscoreParseError::InvalidMagicBytes { expected: MAGICBYTES, actual });
            }
            i += 1;
        }
        assert(actual@ =~= spec_db_magic());
        if data.len() < 19 {
            return Err(HighscoreParseError::IOError { io_error: IoError::UnexpectedEof });
        }
        if data[18] != DATABASE_VERSION {
            return Err(HighscoreParseError::InvalidVersion { invalid_version: data[18] });
        }
        let len_bytes = tail(data, 19);
        proof {
            if len_bytes@.len() >= 8 {
                assert(len_bytes@.take(8) =~= data@.subrange(19, 27));
            }
        }
        let n = match deserialize_usize(len_bytes) {
            Ok(v) => v,
            Err(e) => return Err(HighscoreParseError::BincodeError { bincode_error: e }),
        };
        let ghost init = self@;
        let ghost outcome = match read_db_entries(data@, 27, n as nat, init) {
            Err(e) => Err(e),
            Ok((ms, p)) => Ok(ms),
        };
        assert(read_database(data@, init) == outcome);
        let mut fresh: Vec<HighscoreRecords> = Vec::new();
        let total: usize = data.len();
        let mut cur: usize = 27;
        let mut k: usize = 0;
        while k < n
            invariant
                k <= n,
                total == data@.len(),
                cur <= total,
                init == self@,
                read_database(data@, init) == outcome,
                outcome == match read_db_entries(data@, 27, n as nat, init) {
                    Err(e) => Err(e),
                    Ok((ms, p)) => Ok(ms),
                },
                read_db_entries(data@, 27, n as nat, init) == read_db_entries(
                    data@,
                    cur as int,
                    (n - k) as nat,
                    init + maps_of(fresh@),
                ),
            decreases n - k,
        {
            if total - cur < 32 {
                return Err(HighscoreParseError::IOError { io_error: IoError::UnexpectedEof });
            }
            let mut hash = [0u8; 32];
            let mut j: usize = 0;
            while j < 32
                invariant
                    j <= 32,
                    total == data@.len(),
                    cur + 32 <= total,
                    hash@.len() == 32,
                    forall|m: int| 0 <= m < j ==> hash@[m] == data@[cur + m],
                decreases 32 - j,
            {
                hash[j] = data[cur + j];
                j += 1;
            }
            assert(hash@ =~= data@.subrange(cur as int, cur + 32));
            let (rec, next) = match HighscoreRecords::read(data, cur + 32) {
                Ok(x) => x,
                Err(e) => return Err(e),
            };
            if !hashes_equal(rec.get_hash(), &hash) {
                return Err(HighscoreParseError::HashMismatch { expected: hash, actual: *rec.get_hash() });
            }
            let in_self = position(&self.records, &hash);
            let in_fresh = position(&fresh, &hash);
            proof {
                let acc = init + maps_of(fresh@);
                if has_map(acc, hash@) {
                    let m = choose|m: int| 0 <= m < acc.len() && #[trigger] acc[m].hash == hash@;
                    if m < init.len() {
                        assert(maps_of(self.records@)[m].hash == hash@);
                    } else {
                        assert(maps_of(fresh@)[m - init.len()].hash == hash@);
                    }
                }
                if in_self is Some {
                    let m = choose|m: int| 0 <= m < init.len() && #[trigger] init[m].hash == hash@;
                    assert(acc[m].hash == hash@);
                }
                if in_fresh is Some {
                    let m = choose|m: int| 0 <= m < maps_of(fresh@).len() && #[trigger] maps_of(fresh@)[m].hash == hash@;
                    assert(acc[init.len() + m].hash == hash@);
                }
            }
            if in_self.is_some() || in_fresh.is_some() {
                return Err(HighscoreParseError::DuplicateDatabaseEntry);
            }
            let ghost before = fresh@;
            fresh.push(rec);
            proof {
                assert(maps_of(fresh@) =~= maps_of(before).push(rec@));
                assert(init + maps_of(fresh@) =~= (init + maps_of(before)).push(rec@));
            }
            cur = next;
            k += 1;
        }
        let ghost before = self.records@;
        let ghost added = fresh@;
        self.records.append(&mut fresh);
        proof {
            assert(self.records@ =~= before + added);
            assert(maps_of(self.records@) =~= init + maps_of(added));
        }
        Ok(())
    }
}

/// The requirements on a database for writing and reading it back to give the same database:
/// no two maps share a hash, every map's results can be written and read back, and the count
/// fits the machine.
pub open spec fn database_writable(ms: Seq<RecordsView>) -> bool {
    &&& unique_maps(ms)
    &&& ms.len() <= usize::MAX
    &&& forall|i: int| 0 <= i < ms.len() ==> records_writable(#[trigger] ms[i])
}

/// A map's results written in the database format read back under their hash.
proof fn lemma_db_entry_round_trip(r: RecordsView, d: Seq<u8>, q: int)
    requires
        records_writable(r),
        0 <= q,
        q + db_entry_bytes(r).len() <= d.len(),
        d.subrange(q, q + db_entry_bytes(r).len()) == db_entry_bytes(r),
    ensures
        d.len() >= q + 32,
        d.subrange(q, q + 32) == r.hash,
        read_records(d, q + 32) == Ok::<(RecordsView, int), ReadError>((r, q + db_entry_bytes(r).len())),
{
    let eb = db_entry_bytes(r);
    let rb = records_bytes(r);
    assert(eb.subrange(0, 32) =~= r.hash);
    assert(d.subrange(q, q + 32) =~= eb.subrange(0, 32));
    assert(eb.subrange(32, 32 + rb.len() as int) =~= rb);
    assert(d.subrange(q + 32, q + 32 + rb.len()) =~= eb.subrange(32, 32 + rb.len() as int));
    lemma_records_round_trip(r, d, q + 32);
}

/// Maps' results written one after the other read back as the same maps.
proof fn lemma_read_db_entries_round_trip(ms: Seq<RecordsView>, d: Seq<u8>, q: int, k: int)
    requires
        database_writable(ms),
        0 <= k <= ms.len(),
        0 <= q,
        q + db_entries_bytes(ms.skip(k)).len() <= d.len(),
        d.subrange(q, q + db_entries_bytes(ms.skip(k)).len()) == db_entries_bytes(ms.skip(k)),
    ensures
        read_db_entries(d, q, (ms.len() - k) as nat, ms.take(k)) == Ok::<(Seq<RecordsView>, int), ReadError>(
            (ms, q + db_entries_bytes(ms.skip(k)).len()),
        ),
    decreases ms.len() - k,
{
    if k == ms.len() {
        assert(ms.take(k) =~= ms);
        assert(ms.skip(k) =~= Seq::<RecordsView>::empty());
    } else {
        let r = ms[k];
        let tailb = db_entries_bytes(ms.skip(k));
        assert(ms.skip(k)[0] == r);
        assert(ms.skip(k).drop_first() =~= ms.skip(k + 1));
        let eb = db_entry_bytes(r);
        let el: int = eb.len() as int;
        let nb = db_entries_bytes(ms.skip(k + 1));
        assert(tailb == eb + nb);
        assert(tailb.subrange(0, el) =~= eb);
        assert(d.subrange(q, q + el) =~= tailb.subrange(0, el));
        lemma_db_entry_round_trip(r, d, q);
        assert(tailb.subrange(el, el + nb.len()) =~= nb);
        assert(d.subrange(q + el, q + el + nb.len()) =~= tailb.subrange(el, el + nb.len()));
        assert forall|j: int| 0 <= j < ms.take(k).len() implies #[trigger] ms.take(k)[j].hash != r.hash by {
            assert(ms[j].hash != ms[k].hash);
        }
        assert(ms.take(k).push(r) =~= ms.take(k + 1));
        lemma_read_db_entries_round_trip(ms, d, q + el, k + 1);
    }
}

/// A database written in the binary format and read into an empty database gives the same
/// database: the same maps in the same order, each with the same players and results.
pub proof fn lemma_database_round_trip(ms: Seq<RecordsView>)
    requires
        database_writable(ms),
    ensures
        read_database(database_bytes(ms), Seq::empty()) == Ok::<Seq<RecordsView>, ReadError>(ms),
{
    let d = database_bytes(ms);
    lemma_pow256_values();
    lemma_le_round_trip(ms.len(), 8);
    assert(d.take(18) =~= spec_db_magic());
    assert(d[18] == DATABASE_VERSION);
    assert(d.subrange(19, 27) =~= le_bytes(ms.len(), 8));
    let eb = db_entries_bytes(ms);
    assert(ms.skip(0) =~= ms);
    assert(ms.take(0) =~= Seq::<RecordsView>::empty());
    assert(d.subrange(27, 27 + eb.len() as int) =~= eb);
    lemma_read_db_entries_round_trip(ms, d, 27, 0);
}

/// No two maps share a hash, and every map's results are valid.
pub open spec fn valid_database(ms: Seq<RecordsView>) -> bool {
    &&& unique_maps(ms)
    &&& forall|i: int| 0 <= i < ms.len() ==> valid_players(#[trigger] ms[i].players)
}

/// Putting a result into a database keeps it valid: no two maps come to share a hash, no two
/// players of a map a name, and every player's results stay ordered.
pub proof fn lemma_put_map_keeps_valid(ms: Seq<RecordsView>, h: Seq<u8>, name: Seq<char>, w: PlayerHighscoresWrapper)
    requires
        valid_database(ms),
    ensures
        valid_database(put_map(ms, h, name, w)),
{
    let r = put_map(ms, h, name, w);
    if has_map(ms, h) {
        let i = choose|i: int| first_map(ms, h, i);
        let j0 = choose|j: int| 0 <= j < ms.len() && #[trigger] ms[j].hash == h;
        assert(first_map(ms, h, j0)) by {
            assert forall|k: int| 0 <= k < j0 implies #[trigger] ms[k].hash != h by {
                assert(ms[k].hash != ms[j0].hash);
            }
        }
        lemma_put_player_keeps_valid(ms[i].players, name, w);
        assert forall|a: int, b: int| 0 <= a < b < r.len() implies #[trigger] r[a].hash != #[trigger] r[b].hash by {
            assert(ms[a].hash != ms[b].hash);
        }
        assert forall|j: int| 0 <= j < r.len() implies valid_players(#[trigger] r[j].players) by {
            if j != i {
                assert(r[j] == ms[j]);
            }
        }
    } else {
        lemma_put_player_keeps_valid(Seq::empty(), name, w);
        assert forall|a: int, b: int| 0 <= a < b < r.len() implies #[trigger] r[a].hash != #[trigger] r[b].hash by {
            if b < ms.len() {
                assert(ms[a].hash != ms[b].hash);
            } else {
                assert(r[a] == ms[a]);
            }
        }
        assert forall|j: int| 0 <= j < r.len() implies valid_players(#[trigger] r[j].players) by {
            if j < ms.len() {
                assert(r[j] == ms[j]);
            }
        }
    }
}

} // verus!
