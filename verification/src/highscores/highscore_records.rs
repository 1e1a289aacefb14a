//! The results of all players on one map.
//!
//! The binary format is the version byte 0x01, the map's hash as 32 bytes, the number of
//! players as eight bytes, and for each player its name as a bincode string followed by the
//! player's results.
use crate::codec::{
    deserialize_string, deserialize_usize, le_bytes, le_value, lemma_le_round_trip, lemma_pow256_values,
    lemma_string_round_trip, read_string_value, reads_string, serialize_string, serialize_usize,
    string_bytes, string_len, tail,
};
use crate::highscores::highscore::Highscore;
use crate::highscores::io_error::{error_is, HighscoreParseError, ReadError};
use crate::highscores::player_highscores::{
    current_time_millis, insert_score, lemma_insert_score_sorted, lemma_player_round_trip, player_bytes,
    read_player, sorted_scores,
    PlayerHighscores, PlayerHighscoresView, PlayerHighscoresWrapper,
};
use crate::io_error::IoError;
use vstd::prelude::*;
use vstd::string::StringSliceAdditionalSpecFns;
use vstd::utf8::encode_utf8;

verus! {

/// The version of the binary format of a map's results.
pub const RECORDS_VERSION: u8 = 0x01;

/// The results of all players on one map, under the name each was stored with.
pub struct HighscoreRecords {
    map_hash: [u8; 32],
    player_records: Vec<(String, PlayerHighscores)>,
}

/// The players' results as plain values.
pub open spec fn players_of(v: Seq<(String, PlayerHighscores)>) -> Seq<(Seq<char>, PlayerHighscoresView)> {
    v.map_values(|e: (String, PlayerHighscores)| (e.0@, e.1@))
}

/// Replacing one entry replaces its plain value.
broadcast proof fn lemma_players_of_update(v: Seq<(String, PlayerHighscores)>, i: int, e: (String, PlayerHighscores))
    requires
        0 <= i < v.len(),
    ensures
        #[trigger] players_of(v.update(i, e)) == players_of(v).update(i, (e.0@, e.1@)),
{
    assert(players_of(v.update(i, e)) =~= players_of(v).update(i, (e.0@, e.1@)));
}

/// Whether some entry is stored under `name`.
pub open spec fn has_player(ps: Seq<(Seq<char>, PlayerHighscoresView)>, name: Seq<char>) -> bool {
    exists|i: int| 0 <= i < ps.len() && #[trigger] ps[i].0 == name
}

/// `i` is the first entry stored under `name`.
pub open spec fn first_player(ps: Seq<(Seq<char>, PlayerHighscoresView)>, name: Seq<char>, i: int) -> bool {
    &&& 0 <= i < ps.len()
    &&& ps[i].0 == name
    &&& forall|j: int| 0 <= j < i ==> #[trigger] ps[j].0 != name
}

/// No two entries are stored under the same name.
pub open spec fn unique_players(ps: Seq<(Seq<char>, PlayerHighscoresView)>) -> bool {
    forall|i: int, j: int| 0 <= i < j < ps.len() ==> #[trigger] ps[i].0 != #[trigger] ps[j].0
}

/// The entries after storing the result `w` for the player `name`: into the first entry stored
/// under that name, or into a new entry for that player at the end.
pub open spec fn put_player(
    ps: Seq<(Seq<char>, PlayerHighscoresView)>,
    name: Seq<char>,
    w: PlayerHighscoresWrapper,
) -> Seq<(Seq<char>, PlayerHighscoresView)> {
    if has_player(ps, name) {
        let i = choose|i: int| first_player(ps, name, i);
        ps.update(
            i,
            (name, PlayerHighscoresView { player: ps[i].1.player, scores: insert_score(ps[i].1.scores, w) }),
        )
    } else {
        ps.push((name, PlayerHighscoresView { player: name, scores: insert_score(Seq::empty(), w) }))
    }
}

/// The best result of the first entry stored under `name`, if there is such an entry and it
/// holds a result.
pub open spec fn records_best(ps: Seq<(Seq<char>, PlayerHighscoresView)>, name: Seq<char>) -> Option<
    PlayerHighscoresWrapper,
> {
    if has_player(ps, name) {
        let i = choose|i: int| first_player(ps, name, i);
        if ps[i].1.scores.len() > 0 {
            Some(ps[i].1.scores.last())
        } else {
            None
        }
    } else {
        None
    }
}

/// A map's results as plain values.
pub struct RecordsView {
    pub hash: Seq<u8>,
    pub players: Seq<(Seq<char>, PlayerHighscoresView)>,
}

impl HighscoreRecords {
    pub closed spec fn spec_view(self) -> RecordsView {
        RecordsView { hash: self.map_hash@, players: players_of(self.player_records@) }
    }
}

impl View for HighscoreRecords {
    type V = RecordsView;

    open spec fn view(&self) -> RecordsView {
        self.spec_view()
    }
}

impl Default for HighscoreRecords {
    fn default() -> (r: Self)
        ensures
            r@.hash == Seq::new(32, |i: int| 0u8),
            r@.players == Seq::<(Seq<char>, PlayerHighscoresView)>::empty(),
    {
        let r = HighscoreRecords { map_hash: [0u8; 32], player_records: Vec::new() };
        assert(r@.hash =~= Seq::new(32, |i: int| 0u8));
        assert(r@.players =~= Seq::<(Seq<char>, PlayerHighscoresView)>::empty());
        r
    }
}

impl HighscoreRecords {
    pub fn new(map_hash: [u8; 32]) -> (r: Self)
        ensures
            r@.hash == map_hash@,
            r@.players == Seq::<(Seq<char>, PlayerHighscoresView)>::empty(),
    {
        let r = HighscoreRecords { map_hash, player_records: Vec::new() };
        assert(r@.players =~= Seq::<(Seq<char>, PlayerHighscoresView)>::empty());
        r
    }

    /// The position of the first entry stored under `name`, if there is one.
    fn find(&self, name: &String) -> (r: Option<usize>)
        ensures
            r is None <==> !has_player(self@.players, name@),
            r matches Some(i) ==> first_player(self@.players, name@, i as int),
    {
        let mut i: usize = 0;
        while i < self.player_records.len()
            invariant
                i <= self.player_records@.len(),
                forall|j: int| 0 <= j < i ==> #[trigger] self@.players[j].0 != name@,
            decreases self.player_records@.len() - i,
        {
            assert(self@.players[i as int] == (self.player_records@[i as int].0@, self.player_records@[i as int].1@));
            if self.player_records[i].0 == *name {
                assert(self@.players[i as int].0 == name@);
                return Some(i);
            }
            i += 1;
        }
        proof {
            if has_player(self@.players, name@) {
                let j = choose|j: int| 0 <= j < self@.players.len() && #[trigger] self@.players[j].0 == name@;
                assert(self@.players[j].0 != name@);
            }
        }
        None
    }

    /// Put the given highscore into the record, creating all necessary data structures automatically
    pub fn put(&mut self, player: String, timestamp: i64, highscore: Highscore) -> (r: &mut Self)
        ensures
            r@.hash == old(self)@.hash,
            r@.players == put_player(old(self)@.players, player@, PlayerHighscoresWrapper { timestamp, highscore }),
            *final(self) == *final(r),
    {
        self.put_into(player, timestamp, highscore);
        self
    }

    /// Store the result for the player.
    fn put_into(&mut self, player: String, timestamp: i64, highscore: Highscore)
        ensures
            final(self)@.hash == old(self)@.hash,
            final(self)@.players == put_player(
                old(self)@.players,
                player@,
                PlayerHighscoresWrapper { timestamp, highscore },
            ),
    {
        broadcast use lemma_players_of_update;
        let ghost w = PlayerHighscoresWrapper { timestamp, highscore };
        match self.find(&player) {
            Some(i) => {
                let ghost before = self@.players;
                let mut entry = (String::new(), PlayerHighscores::new(String::new()));
                let mut records: Vec<(String, PlayerHighscores)> = Vec::new();
                std::mem::swap(&mut records, &mut self.player_records);
                std::mem::swap(&mut entry, &mut records[i]);
                entry.1.store(timestamp, highscore);
                let ghost stored = entry;
                records[i] = entry;
                self.player_records = records;
                proof {
                    assert(first_player(before, player@, i as int));
                    let k = choose|k: int| first_player(before, player@, k);
                    if k < i {
                        assert(before[k].0 != player@);
                    } else if k > i {
                        assert(before[i as int].0 != player@);
                    }
                    assert(self@.players =~= before.update(i as int, (stored.0@, stored.1@)));
                }
            },
            None => {
                let ghost before = self.player_records@;
                let mut ph = PlayerHighscores::new(player.clone());
                ph.store(timestamp, highscore);
                self.player_records.push((player, ph));
                assert(players_of(self.player_records@) =~= players_of(before).push(
                    (player@, PlayerHighscoresView { player: player@, scores: insert_score(Seq::empty(), w) }),
                ));
            },
        }
    }

    /// Put the given highscore with the current time into the record, creating all necessary data
    /// structures automatically. What time the clock gives is not known in advance.
    pub fn put_with_current_time(&mut self, player: String, highscore: Highscore) -> (r: &mut Self)
        ensures
            r@.hash == old(self)@.hash,
            exists|t: i64|
                r@.players == put_player(
                    old(self)@.players,
                    player@,
                    PlayerHighscoresWrapper { timestamp: t, highscore },
                ),
            *final(self) == *final(r),
    {
        let timestamp = current_time_millis();
        self.put_into(player, timestamp, highscore);
        self
    }

    /// Get the (best) highscore for the given player
    pub fn get_best(&self, player: &String) -> (r: Option<(i64, &Highscore)>)
        ensures
            r is Some <==> records_best(self@.players, player@) is Some,
            r matches Some((t, h)) ==> records_best(self@.players, player@) == Some(
                PlayerHighscoresWrapper { timestamp: t, highscore: *h },
            ),
    {
        match self.find(player) {
            None => None,
            Some(i) => {
                assert(self@.players[i as int] == (self.player_records@[i as int].0@, self.player_records@[i as int].1@));
                let ghost k = choose|k: int| first_player(self@.players, player@, k);
                assert(k == i) by {
                    if k < i {
                        assert(self@.players[k].0 != player@);
                    } else if k > i {
                        assert(self@.players[i as int].0 != player@);
                    }
                }
                self.player_records[i].1.best()
            },
        }
    }

    /// Get the high scores for the given player
    pub fn get(&self, playername: &String) -> (r: Option<&PlayerHighscores>)
        ensures
            r is None <==> !has_player(self@.players, playername@),
            r matches Some(p) ==> exists|i: int| first_player(self@.players, playername@, i) && p@ == self@.players[i].1,
    {
        match self.find(playername) {
            Some(i) => {
                assert(self@.players[i as int] == (self.player_records@[i as int].0@, self.player_records@[i as int].1@));
                Some(&self.player_records[i].1)
            },
            None => None,
        }
    }

    /// Get the high scores for the given player as mutable reference
    pub fn get_mut(&mut self, playername: &String) -> (r: Option<&mut PlayerHighscores>)
        ensures
            r is None <==> !has_player(old(self)@.players, playername@),
            r is None ==> final(self)@ == old(self)@,
            r matches Some(p) ==> exists|i: int|
                first_player(old(self)@.players, playername@, i) && p@ == old(self)@.players[i].1
                    && final(self)@.hash == old(self)@.hash && final(self)@.players == old(self)@.players.update(
                    i,
                    (old(self)@.players[i].0, final(p)@),
                ),
    {
        broadcast use lemma_players_of_update;
        match self.find(playername) {
            Some(i) => {
                assert(self@.players[i as int] == (self.player_records@[i as int].0@, self.player_records@[i as int].1@));
                let entry = &mut self.player_records[i];
                Some(&mut entry.1)
            },
            None => None,
        }
    }

    /// Get the number of players stored in these highscore records
    pub fn len(&self) -> (r: usize)
        ensures
            r == self@.players.len(),
    {
        self.player_records.len()
    }

    /// Check if this highscore record is empty
    pub fn is_empty(&self) -> (r: bool)
        ensures
            r <==> self@.players.len() == 0,
    {
        self.player_records.len() == 0
    }

    /// The hash of the map.
    pub(crate) fn get_hash(&self) -> (r: &[u8; 32])
        ensures
            r@ == self@.hash,
    {
        &self.map_hash
    }
}

/// Putting a result keeps the names of the entries apart.
pub proof fn lemma_put_player_unique(
    ps: Seq<(Seq<char>, PlayerHighscoresView)>,
    name: Seq<char>,
    w: PlayerHighscoresWrapper,
)
    requires
        unique_players(ps),
    ensures
        unique_players(put_player(ps, name, w)),
{
    let r = put_player(ps, name, w);
    if has_player(ps, name) {
        let i = choose|i: int| first_player(ps, name, i);
        let j = choose|j: int| 0 <= j < ps.len() && #[trigger] ps[j].0 == name;
        assert(first_player(ps, name, j)) by {
            assert forall|k: int| 0 <= k < j implies #[trigger] ps[k].0 != name by {
                assert(ps[k].0 != ps[j].0);
            }
        }
        assert forall|a: int, b: int| 0 <= a < b < r.len() implies #[trigger] r[a].0 != #[trigger] r[b].0 by {
            assert(ps[a].0 != ps[b].0);
        }
    } else {
        assert forall|a: int, b: int| 0 <= a < b < r.len() implies #[trigger] r[a].0 != #[trigger] r[b].0 by {
            if b < ps.len() {
                assert(ps[a].0 != ps[b].0);
            } else {
                assert(r[a].0 == ps[a].0);
            }
        }
    }
}

/// A player's entry in the binary format: the name it is stored under, then the results.
pub open spec fn entry_bytes(e: (Seq<char>, PlayerHighscoresView)) -> Seq<u8> {
    string_bytes(e.0) + player_bytes(e.1)
}

/// The entries in the binary format, one after the other.
pub open spec fn entries_bytes(ps: Seq<(Seq<char>, PlayerHighscoresView)>) -> Seq<u8>
    decreases ps.len(),
{
    if ps.len() == 0 {
        Seq::empty()
    } else {
        entry_bytes(ps[0]) + entries_bytes(ps.drop_first())
    }
}

/// Writing one more entry appends its bytes.
proof fn lemma_entries_push(ps: Seq<(Seq<char>, PlayerHighscoresView)>, e: (Seq<char>, PlayerHighscoresView))
    ensures
        entries_bytes(ps.push(e)) == entries_bytes(ps) + entry_bytes(e),
    decreases ps.len(),
{
    if ps.len() == 0 {
        let t = ps.push(e);
        assert(t.drop_first() =~= Seq::<(Seq<char>, PlayerHighscoresView)>::empty());
        assert(t[0] == e);
        assert(entries_bytes(t.drop_first()) =~= Seq::<u8>::empty());
        assert(entries_bytes(t) =~= entry_bytes(e));
        assert(entries_bytes(ps) =~= Seq::<u8>::empty());
    } else {
        assert(ps.push(e).drop_first() =~= ps.drop_first().push(e));
        lemma_entries_push(ps.drop_first(), e);
        assert(entries_bytes(ps.push(e)) =~= entries_bytes(ps) + entry_bytes(e));
    }
}

/// A map's results in the binary format.
pub open spec fn records_bytes(v: RecordsView) -> Seq<u8> {
    seq![RECORDS_VERSION] + v.hash + le_bytes(v.players.len(), 8) + entries_bytes(v.players)
}

/// Read `n` entries from position `pos` on after the entries `acc`; an entry stored under a
/// name that an earlier one has is an error.
pub open spec fn read_entries(d: Seq<u8>, pos: int, n: nat, acc: Seq<(Seq<char>, PlayerHighscoresView)>) -> Result<
    (Seq<(Seq<char>, PlayerHighscoresView)>, int),
    ReadError,
>
    decreases n,
{
    if n == 0 {
        Ok((acc, pos))
    } else if !reads_string(d.skip(pos)) {
        Err(ReadError::Bincode)
    } else {
        let name = read_string_value(d.skip(pos));
        match read_player(d, pos + string_len(d.skip(pos))) {
            Err(e) => Err(e),
            Ok((pv, p)) => if has_player(acc, name) {
                Err(ReadError::DuplicatePlayer)
            } else {
                read_entries(d, p, (n - 1) as nat, acc.push((name, pv)))
            },
        }
    }
}

/// Read a map's results at position `pos` of `d`: the results and the position after them.
pub open spec fn read_records(d: Seq<u8>, pos: int) -> Result<(RecordsView, int), ReadError> {
    if pos >= d.len() {
        Err(ReadError::Eof)
    } else if d[pos] != RECORDS_VERSION {
        Err(ReadError::Version { byte: d[pos] })
    } else if d.len() < pos + 33 {
        Err(ReadError::Eof)
    } else if d.len() < pos + 41 || le_value(d.subrange(pos + 33, pos + 41)) > usize::MAX {
        Err(ReadError::Bincode)
    } else {
        match read_entries(d, pos + 41, le_value(d.subrange(pos + 33, pos + 41)), Seq::empty()) {
            Err(e) => Err(e),
            Ok((ps, p)) => Ok((RecordsView { hash: d.subrange(pos + 1, pos + 33), players: ps }, p)),
        }
    }
}

impl HighscoreRecords {
    /// Append these results in the binary format.
    pub(crate) fn write_into(&self, out: &mut Vec<u8>)
        ensures
            final(out)@ == old(out)@ + records_bytes(self@),
    {
        out.push(RECORDS_VERSION);
        let mut i: usize = 0;
        let ghost start = out@;
        while i < 32
            invariant
                i <= 32,
                self.map_hash@.len() == 32,
                out@ == start + self.map_hash@.take(i as int),
            decreases 32 - i,
        {
            assert(self.map_hash@.take(i + 1) =~= self.map_hash@.take(i as int).push(self.map_hash@[i as int]));
            out.push(self.map_hash[i]);
            i += 1;
        }
        assert(self.map_hash@.take(32) =~= self.map_hash@);
        let mut len_b = match serialize_usize(self.player_records.len()) {
            Ok(b) => b,
            Err(_) => Vec::new(),
        };
        out.append(&mut len_b);
        let ghost head = out@;
        let ghost ps = self@.players;
        let mut k: usize = 0;
        while k < self.player_records.len()
            invariant
                k <= self.player_records@.len(),
                ps == self@.players,
                ps.len() == self.player_records@.len(),
                out@ == head + entries_bytes(ps.take(k as int)),
            decreases self.player_records@.len() - k,
        {
            let ghost before = out@;
            let mut name = match serialize_string(self.player_records[k].0.as_str()) {
                Ok(b) => b,
                Err(_) => Vec::new(),
            };
            out.append(&mut name);
            self.player_records[k].1.write_into(out);
            proof {
                assert(ps[k as int] == (self.player_records@[k as int].0@, self.player_records@[k as int].1@));
                lemma_entries_push(ps.take(k as int), ps[k as int]);
                assert(ps.take(k + 1) =~= ps.take(k as int).push(ps[k as int]));
                assert(out@ =~= before + entry_bytes(ps[k as int]));
            }
            k += 1;
        }
        assert(ps.take(k as int) =~= ps);
        assert(out@ =~= old(out)@ + records_bytes(self@));
    }

    /// Read a map's results at position `pos`: the results and the position after them.
    pub(crate) fn read(data: &[u8], pos: usize) -> (r: Result<(HighscoreRecords, usize), HighscoreParseError>)
        requires
            pos <= data@.len(),
        ensures
            match read_records(data@, pos as int) {
                Ok((v, p)) => (r matches Ok((rec, p2)) && rec@ == v && p2 == p),
                Err(e) => (r matches Err(e2) && error_is(e2, e)),
            },
            r matches Ok((_, p)) ==> p <= data@.len(),
    {
        if pos >= data.len() {
            return Err(HighscoreParseError::IOError { io_error: IoError::UnexpectedEof });
        }
        if data[pos] != RECORDS_VERSION {
            return Err(HighscoreParseError::InvalidVersion { invalid_version: data[pos] });
        }
        if data.len() - pos < 33 {
            return Err(HighscoreParseError::IOError { io_error: IoError::UnexpectedEof });
        }
        let total: usize = data.len();
        let mut hash = [0u8; 32];
        let mut i: usize = 0;
        while i < 32
            invariant
                i <= 32,
                total == data@.len(),
                pos + 33 <= total,
                hash@.len() == 32,
                forall|j: int| 0 <= j < i ==> hash@[j] == data@[pos + 1 + j],
            decreases 32 - i,
        {
            hash[i] = data[pos + 1 + i];
            i += 1;
        }
        assert(hash@ =~= data@.subrange(pos + 1, pos + 33));
        let len_bytes = tail(data, pos + 33);
        proof {
            if len_bytes@.len() >= 8 {
                assert(len_bytes@.take(8) =~= data@.subrange(pos + 33, pos + 41));
            }
        }
        let n = match deserialize_usize(len_bytes) {
            Ok(v) => v,
            Err(e) => return Err(HighscoreParseError::BincodeError { bincode_error: e }),
        };
        let ghost outcome = match read_entries(data@, pos + 41, n as nat, Seq::empty()) {
            Err(e) => Err(e),
            Ok((ps, p)) => Ok((RecordsView { hash: data@.subrange(pos + 1, pos + 33), players: ps }, p)),
        };
        assert(read_records(data@, pos as int) == outcome);
        let mut rec = HighscoreRecords { map_hash: hash, player_records: Vec::new() };
        assert(rec@.players =~= Seq::<(Seq<char>, PlayerHighscoresView)>::empty());
        let mut cur: usize = pos + 41;
        let mut k: usize = 0;
        while k < n
            invariant
                k <= n,
                cur <= data@.len(),
                rec@.hash == data@.subrange(pos + 1, pos + 33),
                read_records(data@, pos as int) == outcome,
                outcome == match read_entries(data@, pos + 41, n as nat, Seq::empty()) {
                    Err(e) => Err(e),
                    Ok((ps, p)) => Ok((RecordsView { hash: data@.subrange(pos + 1, pos + 33), players: ps }, p)),
                },
                read_entries(data@, pos + 41, n as nat, Seq::empty()) == read_entries(
                    data@,
                    cur as int,
                    (n - k) as nat,
                    rec@.players,
                ),
            decreases n - k,
        {
            let rest = tail(data, cur);
            assert(rest@ =~= data@.skip(cur as int));
            let name = match deserialize_string(rest) {
                Ok(s) => s,
                Err(e) => return Err(HighscoreParseError::BincodeError { bincode_error: e }),
            };
            let name_str = name.as_str();
            let name_len: usize = name_str.len();
            proof {
                let bytes = rest@.subrange(8, 8 + le_value(rest@.take(8)) as int);
                vstd::utf8::decode_utf8_encode_utf8(bytes);
                assert(name_str@ == name@);
                assert(name_len == encode_utf8(name@).len());
            }
            let total: usize = data.len();
            assert(cur + 8 + name_len <= total);
            let p1: usize = cur + 8 + name_len;
            let (ph, next) = match PlayerHighscores::read(data, p1) {
                Ok(x) => x,
                Err(e) => return Err(e),
            };
            if rec.find(&name).is_some() {
                return Err(HighscoreParseError::DuplicatePlayerEntry);
            }
            let ghost before = rec.player_records@;
            rec.player_records.push((name, ph));
            assert(players_of(rec.player_records@) =~= players_of(before).push((name@, ph@)));
            cur = next;
            k += 1;
        }
        Ok((rec, cur))
    }
}

/// The requirements on a map's results for writing and reading them back to give the same
/// results: every name can be written, the players' results are ordered, no two entries share a
/// name, and the counts fit the machine.
pub open spec fn records_writable(v: RecordsView) -> bool {
    &&& v.hash.len() == 32
    &&& unique_players(v.players)
    &&& v.players.len() <= usize::MAX
    &&& forall|i: int|
        0 <= i < v.players.len() ==> {
            &&& encode_utf8(#[trigger] v.players[i].0).len() <= usize::MAX
            &&& encode_utf8(v.players[i].1.player).len() <= usize::MAX
            &&& sorted_scores(v.players[i].1.scores)
            &&& v.players[i].1.scores.len() <= usize::MAX
        }
}

/// An entry written in the binary format reads back as its name and its results.
proof fn lemma_entry_round_trip(e: (Seq<char>, PlayerHighscoresView), d: Seq<u8>, q: int)
    requires
        encode_utf8(e.0).len() <= usize::MAX,
        encode_utf8(e.1.player).len() <= usize::MAX,
        sorted_scores(e.1.scores),
        e.1.scores.len() <= usize::MAX,
        0 <= q,
        q + entry_bytes(e).len() <= d.len(),
        d.subrange(q, q + entry_bytes(e).len()) == entry_bytes(e),
    ensures
        reads_string(d.skip(q)),
        read_string_value(d.skip(q)) == e.0,
        q + string_len(d.skip(q)) + player_bytes(e.1).len() == q + entry_bytes(e).len(),
        read_player(d, q + string_len(d.skip(q))) == Ok::<(PlayerHighscoresView, int), ReadError>(
            (e.1, q + entry_bytes(e).len()),
        ),
{
    let eb = entry_bytes(e);
    let sb = string_bytes(e.0);
    let sl: int = sb.len() as int;
    let pb = player_bytes(e.1);
    let pl: int = pb.len() as int;
    let rest = d.skip(q + sl);
    assert(eb.subrange(0, sl) =~= sb);
    assert(d.subrange(q, q + sl) =~= eb.subrange(0, sl));
    assert(d.skip(q) =~= d.subrange(q, q + sl) + rest);
    lemma_string_round_trip(e.0, rest);
    assert(eb.subrange(sl, sl + pl) =~= pb);
    assert(d.subrange(q + sl, q + sl + pl) =~= eb.subrange(sl, sl + pl));
    lemma_player_round_trip(e.1, d, q + sl);
}

/// Entries written one after the other read back as the same entries.
proof fn lemma_read_entries_round_trip(v: RecordsView, d: Seq<u8>, q: int, k: int)
    requires
        records_writable(v),
        0 <= k <= v.players.len(),
        0 <= q,
        q + entries_bytes(v.players.skip(k)).len() <= d.len(),
        d.subrange(q, q + entries_bytes(v.players.skip(k)).len()) == entries_bytes(v.players.skip(k)),
    ensures
        read_entries(d, q, (v.players.len() - k) as nat, v.players.take(k)) == Ok::<
            (Seq<(Seq<char>, PlayerHighscoresView)>, int),
            ReadError,
        >((v.players, q + entries_bytes(v.players.skip(k)).len())),
    decreases v.players.len() - k,
{
    let ps = v.players;
    if k == ps.len() {
        assert(ps.take(k) =~= ps);
        assert(ps.skip(k) =~= Seq::<(Seq<char>, PlayerHighscoresView)>::empty());
    } else {
        let e = ps[k];
        let tailb = entries_bytes(ps.skip(k));
        assert(ps.skip(k)[0] == e);
        assert(ps.skip(k).drop_first() =~= ps.skip(k + 1));
        let eb = entry_bytes(e);
        let el: int = eb.len() as int;
        let nb = entries_bytes(ps.skip(k + 1));
        assert(tailb == eb + nb);
        assert(tailb.subrange(0, el) =~= eb);
        assert(d.subrange(q, q + el) =~= tailb.subrange(0, el));
        lemma_entry_round_trip(e, d, q);
        assert(tailb.subrange(el, el + nb.len()) =~= nb);
        assert(d.subrange(q + el, q + el + nb.len()) =~= tailb.subrange(el, el + nb.len()));
        assert forall|j: int| 0 <= j < ps.take(k).len() implies #[trigger] ps.take(k)[j].0 != e.0 by {
            assert(ps[j].0 != ps[k].0);
        }
        assert(ps.take(k).push(e) =~= ps.take(k + 1));
        lemma_read_entries_round_trip(v, d, q + el, k + 1);
    }
}

/// A map's results written in the binary format read back as the same results, wherever they
/// stand.
pub proof fn lemma_records_round_trip(v: RecordsView, d: Seq<u8>, pos: int)
    requires
        records_writable(v),
        0 <= pos,
        pos + records_bytes(v).len() <= d.len(),
        d.subrange(pos, pos + records_bytes(v).len()) == records_bytes(v),
    ensures
        read_records(d, pos) == Ok::<(RecordsView, int), ReadError>((v, pos + records_bytes(v).len())),
{
    let b = records_bytes(v);
    lemma_pow256_values();
    lemma_le_round_trip(v.players.len(), 8);
    assert(d[pos] == b[0]);
    assert(b.subrange(1, 33) =~= v.hash);
    assert(d.subrange(pos + 1, pos + 33) =~= b.subrange(1, 33));
    assert(b.subrange(33, 41) =~= le_bytes(v.players.len(), 8));
    assert(d.subrange(pos + 33, pos + 41) =~= b.subrange(33, 41));
    let eb = entries_bytes(v.players);
    assert(b.subrange(41, 41 + eb.len() as int) =~= eb);
    assert(d.subrange(pos + 41, pos + 41 + eb.len()) =~= b.subrange(41, 41 + eb.len() as int));
    assert(v.players.skip(0) =~= v.players);
    assert(v.players.take(0) =~= Seq::<(Seq<char>, PlayerHighscoresView)>::empty());
    assert(d.subrange(pos + 41, pos + 41 + entries_bytes(v.players).len()) =~= entries_bytes(v.players));
    lemma_read_entries_round_trip(v, d, pos + 41, 0);
}

/// Every player's results are ordered, and no two entries share a name.
pub open spec fn valid_players(ps: Seq<(Seq<char>, PlayerHighscoresView)>) -> bool {
    &&& unique_players(ps)
    &&& forall|i: int| 0 <= i < ps.len() ==> sorted_scores(#[trigger] ps[i].1.scores)
}

/// Putting a result into a map's results keeps them valid: the players' results stay ordered
/// and no two entries come to share a name.
pub proof fn lemma_put_player_keeps_valid(
    ps: Seq<(Seq<char>, PlayerHighscoresView)>,
    name: Seq<char>,
    w: PlayerHighscoresWrapper,
)
    requires
        valid_players(ps),
    ensures
        valid_players(put_player(ps, name, w)),
{
    lemma_put_player_unique(ps, name, w);
    let r = put_player(ps, name, w);
    if has_player(ps, name) {
        let j0 = choose|j: int| 0 <= j < ps.len() && #[trigger] ps[j].0 == name;
        assert(first_player(ps, name, j0)) by {
            assert forall|k: int| 0 <= k < j0 implies #[trigger] ps[k].0 != name by {
                assert(ps[k].0 != ps[j0].0);
            }
        }
        let i = choose|i: int| first_player(ps, name, i);
        lemma_insert_score_sorted(ps[i].1.scores, w);
        assert forall|j: int| 0 <= j < r.len() implies sorted_scores(#[trigger] r[j].1.scores) by {
            if j != i {
                assert(r[j] == ps[j]);
            }
        }
    } else {
        lemma_insert_score_sorted(Seq::empty(), w);
        assert forall|j: int| 0 <= j < r.len() implies sorted_scores(#[trigger] r[j].1.scores) by {
            if j < ps.len() {
                assert(r[j] == ps[j]);
            }
        }
    }
}

} // verus!
