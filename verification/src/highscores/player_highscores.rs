//! The results of one player on one map, ordered from worst to best.
//!
//! Results are ordered by their score, coins less moves, and then by their time; the best one
//! is the last. Two results with the same score and time count as the same, and only the first
//! of them is kept. The binary format of a player's results is the version byte 0x01, the
//! player's name as a bincode string, the number of results as eight bytes, and the results
//! from worst to best, each as the version byte 0x01, its time as eight bytes and the result.
use crate::codec::{
    deserialize_i64, deserialize_string, deserialize_usize, i64_bytes, le_bytes, le_i64, le_value,
    lemma_i64_round_trip, lemma_le_round_trip, lemma_pow256_values, lemma_string_round_trip,
    read_string_value, reads_string, serialize_i64, serialize_string, serialize_usize, string_bytes,
    string_len, tail,
};
use crate::highscores::highscore::{highscore_bytes, lemma_highscore_round_trip, read_highscore, Highscore};
use crate::highscores::io_error::{error_is, HighscoreParseError, ReadError};
use crate::io_error::IoError;
use std::cmp::Ordering;
use vstd::prelude::*;
use vstd::utf8::encode_utf8;
use vstd::string::StringSliceAdditionalSpecFns;

verus! {

/// The version of the binary format of a timed result.
pub const WRAPPER_VERSION: u8 = 0x01;

/// The version of the binary format of a player's results.
pub const PLAYER_HIGHSCORES_VERSION: u8 = 0x01;

/// A result and the time it was achieved at, in milliseconds since the UNIX epoch.
#[derive(Eq, PartialEq, Debug, Clone, Copy, Structural)]
pub struct PlayerHighscoresWrapper {
    pub timestamp: i64,
    pub highscore: Highscore,
}

impl PlayerHighscoresWrapper {
    /// The score that results are ordered by first: the coins less the moves, each read as a
    /// signed 32-bit number.
    pub open spec fn score_value(self) -> int {
        (self.highscore.num_coins as i32) as int - (self.highscore.num_moves as i32) as int
    }

    /// The score that results are ordered by first.
    pub fn score(&self) -> (r: i64)
        ensures
            r == self.score_value(),
    {
        (self.highscore.num_coins as i32) as i64 - (self.highscore.num_moves as i32) as i64
    }
}

impl Default for PlayerHighscoresWrapper {
    fn default() -> (r: Self)
        ensures
            r.timestamp == 0,
            r.highscore == (Highscore { num_moves: 0, num_coins: 0 }),
    {
        PlayerHighscoresWrapper { timestamp: 0, highscore: Highscore { num_moves: 0, num_coins: 0 } }
    }
}

/// `a` comes before `b`: a lower score, or the same score at an earlier time.
pub open spec fn wrapper_less(a: PlayerHighscoresWrapper, b: PlayerHighscoresWrapper) -> bool {
    a.score_value() < b.score_value() || (a.score_value() == b.score_value() && a.timestamp < b.timestamp)
}

/// `a` and `b` have the same score and time, and count as the same result.
pub open spec fn wrapper_equiv(a: PlayerHighscoresWrapper, b: PlayerHighscoresWrapper) -> bool {
    a.score_value() == b.score_value() && a.timestamp == b.timestamp
}

/// How `a` compares with `b` in the order of results.
pub open spec fn order_of(a: PlayerHighscoresWrapper, b: PlayerHighscoresWrapper) -> Ordering {
    if wrapper_less(a, b) {
        Ordering::Less
    } else if wrapper_less(b, a) {
        Ordering::Greater
    } else {
        Ordering::Equal
    }
}

/// Results are totally ordered: a result is never before itself, the order is transitive,
/// two results compare as equal exactly when they have the same score and time, and `a` comes
/// before `b` exactly when `b` comes after `a`.
pub proof fn lemma_results_totally_ordered(a: PlayerHighscoresWrapper, b: PlayerHighscoresWrapper, c: PlayerHighscoresWrapper)
    ensures
        !wrapper_less(a, a),
        wrapper_less(a, b) && wrapper_less(b, c) ==> wrapper_less(a, c),
        (order_of(a, b) == Ordering::Equal) == wrapper_equiv(a, b),
        (order_of(a, b) == Ordering::Less) == (order_of(b, a) == Ordering::Greater),
{
}

impl PlayerHighscoresWrapper {
    /// Compare two results: by score, then by time.
    pub fn cmp(&self, other: &Self) -> (r: Ordering)
        ensures
            r == order_of(*self, *other),
    {
        let a = self.score();
        let b = other.score();
        if a < b {
            Ordering::Less
        } else if a > b {
            Ordering::Greater
        } else if self.timestamp < other.timestamp {
            Ordering::Less
        } else if self.timestamp > other.timestamp {
            Ordering::Greater
        } else {
            Ordering::Equal
        }
    }
}

impl PlayerHighscoresWrapper {
    /// Whether this result comes before `other`.
    pub fn is_less(&self, other: &Self) -> (r: bool)
        ensures
            r == wrapper_less(*self, *other),
    {
        let a = self.score();
        let b = other.score();
        a < b || (a == b && self.timestamp < other.timestamp)
    }

    /// Whether this result counts as the same as `other`.
    pub fn is_equiv(&self, other: &Self) -> (r: bool)
        ensures
            r == wrapper_equiv(*self, *other),
    {
        self.score() == other.score() && self.timestamp == other.timestamp
    }
}

impl PartialOrd for PlayerHighscoresWrapper {
    fn partial_cmp(&self, other: &Self) -> (r: Option<Ordering>) {
        Some(self.cmp(other))
    }
}

impl vstd::std_specs::cmp::PartialOrdSpecImpl for PlayerHighscoresWrapper {
    open spec fn obeys_partial_cmp_spec() -> bool {
        true
    }

    open spec fn partial_cmp_spec(&self, other: &Self) -> Option<Ordering> {
        Some(order_of(*self, *other))
    }
}

/// The results are in strictly increasing order.
pub open spec fn sorted_scores(s: Seq<PlayerHighscoresWrapper>) -> bool {
    forall|i: int, j: int| 0 <= i < j < s.len() ==> wrapper_less(#[trigger] s[i], #[trigger] s[j])
}

/// Whether some result of `s` counts as the same as `w`.
pub open spec fn has_equiv(s: Seq<PlayerHighscoresWrapper>, w: PlayerHighscoresWrapper) -> bool {
    exists|i: int| 0 <= i < s.len() && wrapper_equiv(#[trigger] s[i], w)
}

/// The number of results of `s` that come before `w`.
pub open spec fn count_less(s: Seq<PlayerHighscoresWrapper>, w: PlayerHighscoresWrapper) -> nat
    decreases s.len(),
{
    if s.len() == 0 {
        0
    } else {
        count_less(s.drop_last(), w) + if wrapper_less(s.last(), w) {
            1nat
        } else {
            0nat
        }
    }
}

/// Store `w` among the ordered results `s`: unchanged when a result that counts as the same is
/// there, else `w` stands after the results that come before it.
pub open spec fn insert_score(s: Seq<PlayerHighscoresWrapper>, w: PlayerHighscoresWrapper) -> Seq<
    PlayerHighscoresWrapper,
> {
    if has_equiv(s, w) {
        s
    } else {
        s.insert(count_less(s, w) as int, w)
    }
}

/// In ordered results, exactly the first `k` come before `w` when the `k`-th does not.
proof fn lemma_count_less(s: Seq<PlayerHighscoresWrapper>, w: PlayerHighscoresWrapper, k: int)
    requires
        0 <= k <= s.len(),
        forall|j: int| 0 <= j < k ==> wrapper_less(#[trigger] s[j], w),
        forall|j: int| k <= j < s.len() ==> !wrapper_less(#[trigger] s[j], w),
    ensures
        count_less(s, w) == k,
    decreases s.len(),
{
    if s.len() > 0 {
        let p = s.drop_last();
        if k == s.len() {
            lemma_count_less(p, w, k - 1);
        } else {
            lemma_count_less(p, w, k);
        }
    }
}

/// A timed result in the binary format.
pub open spec fn wrapper_bytes(w: PlayerHighscoresWrapper) -> Seq<u8> {
    seq![WRAPPER_VERSION] + i64_bytes(w.timestamp) + highscore_bytes(w.highscore)
}

/// Read a timed result at position `pos` of `d`: the result and the position after it.
pub open spec fn read_wrapper(d: Seq<u8>, pos: int) -> Result<(PlayerHighscoresWrapper, int), ReadError> {
    if pos >= d.len() {
        Err(ReadError::Eof)
    } else if d[pos] != WRAPPER_VERSION {
        Err(ReadError::Version { byte: d[pos] })
    } else if d.len() < pos + 9 {
        Err(ReadError::Bincode)
    } else {
        match read_highscore(d, pos + 9) {
            Err(e) => Err(e),
            Ok((h, p)) => Ok(
                (PlayerHighscoresWrapper { timestamp: le_i64(d.subrange(pos + 1, pos + 9)) as i64, highscore: h }, p),
            ),
        }
    }
}

/// A timed result written in the binary format reads back as the same, wherever it stands.
pub proof fn lemma_wrapper_round_trip(w: PlayerHighscoresWrapper, d: Seq<u8>, pos: int)
    requires
        0 <= pos,
        pos + 18 <= d.len(),
        d.subrange(pos, pos + 18) == wrapper_bytes(w),
    ensures
        read_wrapper(d, pos) == Ok::<(PlayerHighscoresWrapper, int), ReadError>((w, pos + 18)),
{
    lemma_i64_round_trip(w.timestamp);
    lemma_pow256_values();
    lemma_le_round_trip(w.highscore.num_moves as nat, 4);
    lemma_le_round_trip(w.highscore.num_coins as nat, 4);
    let b = wrapper_bytes(w);
    assert(d[pos] == b[0]);
    assert(d.subrange(pos + 1, pos + 9) =~= b.subrange(1, 9));
    assert(b.subrange(1, 9) =~= i64_bytes(w.timestamp));
    assert(d.subrange(pos + 9, pos + 18) =~= b.subrange(9, 18));
    assert(b.subrange(9, 18) =~= highscore_bytes(w.highscore));
    lemma_highscore_round_trip(w.highscore, d, pos + 9);
}

/// The results in the binary format, one after the other.
pub open spec fn scores_bytes(s: Seq<PlayerHighscoresWrapper>) -> Seq<u8>
    decreases s.len(),
{
    if s.len() == 0 {
        Seq::empty()
    } else {
        scores_bytes(s.drop_last()) + wrapper_bytes(s.last())
    }
}

/// Each result takes up eighteen bytes.
pub proof fn lemma_scores_bytes(s: Seq<PlayerHighscoresWrapper>)
    ensures
        scores_bytes(s).len() == 18 * s.len(),
        forall|k: int| 0 <= k < s.len() ==> scores_bytes(s).subrange(18 * k, 18 * k + 18) == wrapper_bytes(
            #[trigger] s[k],
        ),
    decreases s.len(),
{
    if s.len() > 0 {
        let p = s.drop_last();
        lemma_scores_bytes(p);
        lemma_i64_round_trip(s.last().timestamp);
        lemma_pow256_values();
        lemma_le_round_trip(s.last().highscore.num_moves as nat, 4);
        lemma_le_round_trip(s.last().highscore.num_coins as nat, 4);
        assert forall|k: int| 0 <= k < s.len() implies scores_bytes(s).subrange(18 * k, 18 * k + 18)
            == wrapper_bytes(#[trigger] s[k]) by {
            if k < p.len() {
                assert(scores_bytes(s).subrange(18 * k, 18 * k + 18) =~= scores_bytes(p).subrange(
                    18 * k,
                    18 * k + 18,
                ));
                assert(p[k] == s[k]);
            } else {
                assert(scores_bytes(s).subrange(18 * k, 18 * k + 18) =~= wrapper_bytes(s.last()));
            }
        }
    }
}

/// Read `n` timed results from position `pos` on into the ordered results `acc`; a result that
/// counts as the same as one read before is an error.
pub open spec fn read_scores(d: Seq<u8>, pos: int, n: nat, acc: Seq<PlayerHighscoresWrapper>) -> Result<
    (Seq<PlayerHighscoresWrapper>, int),
    ReadError,
>
    decreases n,
{
    if n == 0 {
        Ok((acc, pos))
    } else {
        match read_wrapper(d, pos) {
            Err(e) => Err(e),
            Ok((w, p)) => if has_equiv(acc, w) {
                Err(ReadError::DuplicateHighscore)
            } else {
                read_scores(d, p, (n - 1) as nat, insert_score(acc, w))
            },
        }
    }
}

/// A player's results as plain values.
pub struct PlayerHighscoresView {
    pub player: Seq<char>,
    pub scores: Seq<PlayerHighscoresWrapper>,
}

/// A player's results in the binary format.
pub open spec fn player_bytes(v: PlayerHighscoresView) -> Seq<u8> {
    seq![PLAYER_HIGHSCORES_VERSION] + string_bytes(v.player) + le_bytes(v.scores.len(), 8) + scores_bytes(v.scores)
}

/// Read a player's results at position `pos` of `d`: the results and the position after them.
pub open spec fn read_player(d: Seq<u8>, pos: int) -> Result<(PlayerHighscoresView, int), ReadError> {
    if pos >= d.len() {
        Err(ReadError::Eof)
    } else if d[pos] != PLAYER_HIGHSCORES_VERSION {
        Err(ReadError::Version { byte: d[pos] })
    } else if !reads_string(d.skip(pos + 1)) {
        Err(ReadError::Bincode)
    } else {
        let p1 = pos + 1 + string_len(d.skip(pos + 1));
        if d.len() < p1 + 8 || le_value(d.subrange(p1, p1 + 8)) > usize::MAX {
            Err(ReadError::Bincode)
        } else {
            match read_scores(d, p1 + 8, le_value(d.subrange(p1, p1 + 8)), Seq::empty()) {
                Err(e) => Err(e),
                Ok((s, p)) => Ok((PlayerHighscoresView { player: read_string_value(d.skip(pos + 1)), scores: s }, p)),
            }
        }
    }
}

/// The results of one player, ordered from worst to best.
pub struct PlayerHighscores {
    player: String,
    scores: Vec<PlayerHighscoresWrapper>,
}

impl PlayerHighscores {
    #[verifier::type_invariant]
    spec fn wf(self) -> bool {
        sorted_scores(self.scores@)
    }

    pub closed spec fn spec_view(self) -> PlayerHighscoresView {
        PlayerHighscoresView { player: self.player@, scores: self.scores@ }
    }
}

impl View for PlayerHighscores {
    type V = PlayerHighscoresView;

    open spec fn view(&self) -> PlayerHighscoresView {
        self.spec_view()
    }
}

impl Default for PlayerHighscores {
    fn default() -> (r: Self)
        ensures
            r@.player == Seq::<char>::empty(),
            r@.scores == Seq::<PlayerHighscoresWrapper>::empty(),
    {
        PlayerHighscores { player: String::new(), scores: Vec::new() }
    }
}

impl PlayerHighscores {
    /// Create a new empty set of highscores for the given player
    pub fn new(player: String) -> (r: Self)
        ensures
            r@.player == player@,
            r@.scores == Seq::<PlayerHighscoresWrapper>::empty(),
    {
        PlayerHighscores { player, scores: Vec::new() }
    }

    /// The name of the player.
    pub fn player(&self) -> (r: &str)
        ensures
            r@ == self@.player,
    {
        self.player.as_str()
    }

    /// Get the number of stored highscores
    pub fn len(&self) -> (r: usize)
        ensures
            r == self@.scores.len(),
    {
        self.scores.len()
    }

    /// Check if this highscores object is empty
    pub fn is_empty(&self) -> (r: bool)
        ensures
            r <==> self@.scores.len() == 0,
    {
        self.scores.len() == 0
    }

    /// Get the best highscore, with its time
    pub fn best(&self) -> (r: Option<(i64, &Highscore)>)
        ensures
            r is None <==> self@.scores.len() == 0,
            r matches Some((t, h)) ==> t == self@.scores.last().timestamp && *h == self@.scores.last().highscore,
            r matches Some((t, h)) ==> forall|i: int|
                0 <= i < self@.scores.len() ==> !wrapper_less(
                    PlayerHighscoresWrapper { timestamp: t, highscore: *h },
                    #[trigger] self@.scores[i],
                ),
    {
        proof {
            use_type_invariant(self);
        }
        if self.scores.len() == 0 {
            None
        } else {
            let last = &self.scores[self.scores.len() - 1];
            Some((last.timestamp, &last.highscore))
        }
    }

    /// Store the given highscore with the given timestamp (ms from UNIX Epoch). When a result with
    /// the same score and time is stored already, that one stays and nothing changes.
    pub fn store(&mut self, timestamp: i64, highscore: Highscore)
        ensures
            final(self)@.player == old(self)@.player,
            final(self)@.scores == insert_score(
                old(self)@.scores,
                PlayerHighscoresWrapper { timestamp, highscore },
            ),
    {
        proof {
            use_type_invariant(&*self);
        }
        let w = PlayerHighscoresWrapper { timestamp, highscore };
        let mut scores: Vec<PlayerHighscoresWrapper> = Vec::new();
        std::mem::swap(&mut scores, &mut self.scores);
        insert_sorted(&mut scores, w);
        self.scores = scores;
    }

    /// Store the given highscore with the current time. What time the clock gives is not
    /// known in advance; the result is stored as `store` stores it with that time.
    pub fn store_with_current_time(&mut self, highscore: Highscore)
        ensures
            final(self)@.player == old(self)@.player,
            exists|t: i64|
                final(self)@.scores == insert_score(
                    old(self)@.scores,
                    PlayerHighscoresWrapper { timestamp: t, highscore },
                ),
    {
        let timestamp = current_time_millis();
        self.store(timestamp, highscore);
    }
}

/// `chrono::Local::now().timestamp_millis()`: the current time in milliseconds since the UNIX
/// epoch. It depends on the clock; nothing is stated of it.
#[verifier::external_body]
pub(crate) fn current_time_millis() -> (r: i64)
{
    chrono::offset::Local::now().timestamp_millis()
}

/// Store `w` among the ordered results `v`.
fn insert_sorted(v: &mut Vec<PlayerHighscoresWrapper>, w: PlayerHighscoresWrapper) -> (inserted: bool)
    requires
        sorted_scores(old(v)@),
    ensures
        sorted_scores(final(v)@),
        final(v)@ == insert_score(old(v)@, w),
        inserted <==> !has_equiv(old(v)@, w),
{
    let ghost s = v@;
    let mut i: usize = 0;
    while i < v.len() && v[i].is_less(&w)
        invariant
            i <= v@.len(),
            v@ == s,
            sorted_scores(s),
            forall|j: int| 0 <= j < i ==> wrapper_less(#[trigger] s[j], w),
        decreases v@.len() - i,
    {
        i += 1;
    }
    proof {
        assert forall|j: int| i <= j < s.len() implies !wrapper_less(#[trigger] s[j], w) by {
            if j > i {
                assert(wrapper_less(s[i as int], s[j]));
            }
        }
        lemma_count_less(s, w, i as int);
    }
    if i < v.len() && v[i].is_equiv(&w) {
        assert(wrapper_equiv(s[i as int], w));
        return false;
    }
    proof {
        assert forall|j: int| 0 <= j < s.len() implies !wrapper_equiv(#[trigger] s[j], w) by {
            if j > i {
                assert(wrapper_less(s[i as int], s[j]));
            }
        }
    }
    v.insert(i, w);
    proof {
        let t = v@;
        assert forall|a: int, b: int| 0 <= a < b < t.len() implies wrapper_less(#[trigger] t[a], #[trigger] t[b]) by {
            if b < i {
                assert(t[a] == s[a] && t[b] == s[b]);
            } else if b == i {
                assert(t[a] == s[a]);
            } else if a < i {
                assert(t[a] == s[a] && t[b] == s[b - 1]);
                if b - 1 > a {
                    assert(wrapper_less(s[a], s[b - 1]));
                }
            } else if a == i {
                assert(t[b] == s[b - 1]);
                assert(!wrapper_equiv(s[b - 1], w));
            } else {
                assert(t[a] == s[a - 1] && t[b] == s[b - 1]);
            }
        }
    }
    true
}

impl PlayerHighscoresWrapper {
    /// Append this timed result in the binary format.
    pub(crate) fn write_into(&self, out: &mut Vec<u8>)
        ensures
            final(out)@ == old(out)@ + wrapper_bytes(*self),
    {
        out.push(WRAPPER_VERSION);
        let mut ts = match serialize_i64(self.timestamp) {
            Ok(b) => b,
            Err(_) => Vec::new(),
        };
        out.append(&mut ts);
        out.push(crate::highscores::highscore::HIGHSCORE_VERSION);
        self.highscore.write_into(out);
        assert(out@ =~= old(out)@ + wrapper_bytes(*self));
    }

    /// Read a timed result at position `pos`: the result and the position after it.
    pub(crate) fn read(data: &[u8], pos: usize) -> (r: Result<(PlayerHighscoresWrapper, usize), HighscoreParseError>)
        requires
            pos <= data@.len(),
        ensures
            match read_wrapper(data@, pos as int) {
                Ok((w, p)) => (r matches Ok((w2, p2)) && w2 == w && p2 == p),
                Err(e) => (r matches Err(e2) && error_is(e2, e)),
            },
    {
        if pos >= data.len() {
            return Err(HighscoreParseError::IOError { io_error: IoError::UnexpectedEof });
        }
        if data[pos] != WRAPPER_VERSION {
            return Err(HighscoreParseError::InvalidVersion { invalid_version: data[pos] });
        }
        let timestamp = match deserialize_i64(tail(data, pos + 1)) {
            Ok(v) => v,
            Err(e) => return Err(HighscoreParseError::BincodeError { bincode_error: e }),
        };
        proof {
            assert(data@.subrange(pos + 1, data@.len() as int).take(8) =~= data@.subrange(pos + 1, pos + 9));
        }
        match Highscore::read(data, pos + 9) {
            Ok((highscore, p)) => Ok((PlayerHighscoresWrapper { timestamp, highscore }, p)),
            Err(e) => Err(e),
        }
    }
}

impl PlayerHighscores {
    /// Append this player's results in the binary format.
    pub(crate) fn write_into(&self, out: &mut Vec<u8>)
        ensures
            final(out)@ == old(out)@ + player_bytes(self@),
    {
        out.push(PLAYER_HIGHSCORES_VERSION);
        let mut name = match serialize_string(self.player.as_str()) {
            Ok(b) => b,
            Err(_) => Vec::new(),
        };
        out.append(&mut name);
        let mut len_b = match serialize_usize(self.scores.len()) {
            Ok(b) => b,
            Err(_) => Vec::new(),
        };
        out.append(&mut len_b);
        let ghost head = out@;
        let mut i: usize = 0;
        while i < self.scores.len()
            invariant
                i <= self.scores@.len(),
                out@ == head + scores_bytes(self.scores@.take(i as int)),
            decreases self.scores@.len() - i,
        {
            proof {
                assert(self.scores@.take(i + 1).drop_last() =~= self.scores@.take(i as int));
            }
            self.scores[i].write_into(out);
            i += 1;
        }
        assert(self.scores@.take(i as int) =~= self.scores@);
        assert(out@ =~= old(out)@ + player_bytes(self@));
    }

    /// Read a player's results at position `pos`: the results and the position after them.
    pub(crate) fn read(data: &[u8], pos: usize) -> (r: Result<(PlayerHighscores, usize), HighscoreParseError>)
        requires
            pos <= data@.len(),
        ensures
            match read_player(data@, pos as int) {
                Ok((v, p)) => (r matches Ok((ph, p2)) && ph@ == v && p2 == p),
                Err(e) => (r matches Err(e2) && error_is(e2, e)),
            },
            r matches Ok((_, p)) ==> p <= data@.len(),
    {
        if pos >= data.len() {
            return Err(HighscoreParseError::IOError { io_error: IoError::UnexpectedEof });
        }
        if data[pos] != PLAYER_HIGHSCORES_VERSION {
            return Err(HighscoreParseError::InvalidVersion { invalid_version: data[pos] });
        }
        let rest = tail(data, pos + 1);
        assert(rest@ =~= data@.skip(pos + 1));
        let player = match deserialize_string(rest) {
            Ok(s) => s,
            Err(e) => return Err(HighscoreParseError::BincodeError { bincode_error: e }),
        };
        let name_str = player.as_str();
        let name_len: usize = name_str.len();
        proof {
            let bytes = rest@.subrange(8, 8 + le_value(rest@.take(8)) as int);
            vstd::utf8::decode_utf8_encode_utf8(bytes);
            assert(name_str@ == player@);
            assert(name_len == encode_utf8(player@).len());
            assert(name_len == le_value(rest@.take(8)));
        }
        let total: usize = data.len();
        assert(pos + 1 + 8 + name_len <= total);
        let p1: usize = pos + 1 + 8 + name_len;
        assert(p1 == pos + 1 + string_len(data@.skip(pos + 1)));
        let len_bytes = tail(data, p1);
        proof {
            if len_bytes@.len() >= 8 {
                assert(len_bytes@.take(8) =~= data@.subrange(p1 as int, p1 + 8));
            }
        }
        let n = match deserialize_usize(len_bytes) {
            Ok(v) => v,
            Err(e) => return Err(HighscoreParseError::BincodeError { bincode_error: e }),
        };
        let ghost outcome = match read_scores(data@, p1 + 8, n as nat, Seq::empty()) {
            Err(e) => Err(e),
            Ok((sc, p)) => Ok((PlayerHighscoresView { player: player@, scores: sc }, p)),
        };
        assert(read_player(data@, pos as int) == outcome);
        let mut scores: Vec<PlayerHighscoresWrapper> = Vec::new();
        let mut cur: usize = p1 + 8;
        let mut i: usize = 0;
        while i < n
            invariant
                i <= n,
                cur <= data@.len(),
                sorted_scores(scores@),
                read_player(data@, pos as int) == outcome,
                outcome == match read_scores(data@, p1 + 8, n as nat, Seq::empty()) {
                    Err(e) => Err(e),
                    Ok((sc, p)) => Ok((PlayerHighscoresView { player: player@, scores: sc }, p)),
                },
                read_scores(data@, p1 + 8, n as nat, Seq::empty()) == read_scores(
                    data@,
                    cur as int,
                    (n - i) as nat,
                    scores@,
                ),
            decreases n - i,
        {
            let (w, next) = match PlayerHighscoresWrapper::read(data, cur) {
                Ok(x) => x,
                Err(e) => return Err(e),
            };
            if !insert_sorted(&mut scores, w) {
                return Err(HighscoreParseError::DuplicateHighscoreEntry);
            }
            cur = next;
            i += 1;
        }
        Ok((PlayerHighscores { player, scores }, cur))
    }
}

/// Ordered results written one after the other read back as the same results.
proof fn lemma_read_scores_round_trip(s: Seq<PlayerHighscoresWrapper>, d: Seq<u8>, base: int, k: int)
    requires
        sorted_scores(s),
        0 <= k <= s.len(),
        0 <= base,
        base + 18 * s.len() <= d.len(),
        forall|j: int| k <= j < s.len() ==> d.subrange(base + 18 * j, base + 18 * j + 18) == wrapper_bytes(
            #[trigger] s[j],
        ),
    ensures
        read_scores(d, base + 18 * k, (s.len() - k) as nat, s.take(k)) == Ok::<
            (Seq<PlayerHighscoresWrapper>, int),
            ReadError,
        >((s, base + 18 * s.len())),
    decreases s.len() - k,
{
    if k == s.len() {
        assert(s.take(k) =~= s);
    } else {
        let w = s[k];
        let acc = s.take(k);
        lemma_wrapper_round_trip(w, d, base + 18 * k);
        assert forall|j: int| 0 <= j < acc.len() implies !wrapper_equiv(#[trigger] acc[j], w) by {
            assert(wrapper_less(s[j], s[k]));
        }
        assert forall|j: int| 0 <= j < k implies wrapper_less(#[trigger] acc[j], w) by {
            assert(wrapper_less(s[j], s[k]));
        }
        lemma_count_less(acc, w, k);
        assert(acc.insert(k, w) =~= s.take(k + 1));
        lemma_read_scores_round_trip(s, d, base, k + 1);
        assert(base + 18 * (k + 1) == base + 18 * k + 18);
    }
}

/// A player's results written in the binary format read back as the same results, wherever
/// they stand, when they are ordered and the name is one that can be written.
pub proof fn lemma_player_round_trip(v: PlayerHighscoresView, d: Seq<u8>, pos: int)
    requires
        sorted_scores(v.scores),
        encode_utf8(v.player).len() <= usize::MAX,
        v.scores.len() <= usize::MAX,
        0 <= pos,
        pos + player_bytes(v).len() <= d.len(),
        d.subrange(pos, pos + player_bytes(v).len()) == player_bytes(v),
    ensures
        read_player(d, pos) == Ok::<(PlayerHighscoresView, int), ReadError>((v, pos + player_bytes(v).len())),
{
    let b = player_bytes(v);
    let sb = string_bytes(v.player);
    let sl: int = sb.len() as int;
    lemma_pow256_values();
    lemma_le_round_trip(v.scores.len(), 8);
    lemma_scores_bytes(v.scores);
    assert(d[pos] == b[0]);
    let rest = d.skip(pos + 1 + sl);
    assert(b.subrange(1, 1 + sl) =~= sb);
    assert(d.subrange(pos + 1, pos + 1 + sl) =~= b.subrange(1, 1 + sl));
    assert(d.skip(pos + 1) =~= d.subrange(pos + 1, pos + 1 + sl) + rest);
    assert(d.skip(pos + 1) =~= sb + rest);
    lemma_string_round_trip(v.player, rest);
    let p1: int = pos + 1 + sl;
    assert(d.subrange(p1, p1 + 8) =~= b.subrange(1 + sl, 1 + sl + 8));
    assert(b.subrange(1 + sl, 1 + sl + 8) =~= le_bytes(v.scores.len(), 8));
    let base = p1 + 8;
    assert forall|j: int| 0 <= j < v.scores.len() implies d.subrange(base + 18 * j, base + 18 * j + 18)
        == wrapper_bytes(#[trigger] v.scores[j]) by {
        let off: int = 1 + sl + 8;
        assert(d.subrange(base + 18 * j, base + 18 * j + 18) =~= b.subrange(off + 18 * j, off + 18 * j + 18));
        assert(b.subrange(off + 18 * j, off + 18 * j + 18) =~= scores_bytes(v.scores).subrange(18 * j, 18 * j + 18));
    }
    lemma_read_scores_round_trip(v.scores, d, base, 0);
    assert(v.scores.take(0) =~= Seq::<PlayerHighscoresWrapper>::empty());
}

/// In ordered results, the results before the place `count_less` gives come before `w`, and
/// the others do not.
pub proof fn lemma_count_less_splits(s: Seq<PlayerHighscoresWrapper>, w: PlayerHighscoresWrapper)
    requires
        sorted_scores(s),
    ensures
        count_less(s, w) <= s.len(),
        forall|j: int| 0 <= j < count_less(s, w) ==> wrapper_less(#[trigger] s[j], w),
        forall|j: int| count_less(s, w) <= j < s.len() ==> !wrapper_less(#[trigger] s[j], w),
    decreases s.len(),
{
    if s.len() > 0 {
        let p = s.drop_last();
        assert(sorted_scores(p)) by {
            assert forall|i: int, j: int| 0 <= i < j < p.len() implies wrapper_less(#[trigger] p[i], #[trigger] p[j]) by {
                assert(s[i] == p[i] && s[j] == p[j]);
            }
        }
        lemma_count_less_splits(p, w);
        let n = s.len() - 1;
        if wrapper_less(s.last(), w) {
            assert(count_less(s, w) == count_less(p, w) + 1);
            assert forall|j: int| 0 <= j < s.len() implies wrapper_less(#[trigger] s[j], w) by {
                if j < n {
                    assert(wrapper_less(s[j], s[n]));
                }
            }
            assert forall|j: int| 0 <= j < n implies wrapper_less(#[trigger] p[j], w) by {
                assert(wrapper_less(s[j], s[n]));
                assert(s[j] == p[j]);
            }
        } else {
            assert(count_less(s, w) == count_less(p, w));
            assert forall|j: int| 0 <= j < count_less(s, w) implies wrapper_less(#[trigger] s[j], w) by {
                assert(s[j] == p[j]);
            }
            assert forall|j: int| count_less(s, w) <= j < s.len() implies !wrapper_less(#[trigger] s[j], w) by {
                if j < n {
                    assert(s[j] == p[j]);
                }
            }
        }
    }
}

/// Storing a result keeps the results ordered.
pub proof fn lemma_insert_score_sorted(s: Seq<PlayerHighscoresWrapper>, w: PlayerHighscoresWrapper)
    requires
        sorted_scores(s),
    ensures
        sorted_scores(insert_score(s, w)),
{
    if !has_equiv(s, w) {
        lemma_count_less_splits(s, w);
        let k = count_less(s, w) as int;
        let t = s.insert(k, w);
        assert forall|a: int, b: int| 0 <= a < b < t.len() implies wrapper_less(#[trigger] t[a], #[trigger] t[b]) by {
            if b < k {
                assert(t[a] == s[a] && t[b] == s[b]);
            } else if b == k {
                assert(t[a] == s[a]);
            } else if a < k {
                assert(t[a] == s[a] && t[b] == s[b - 1]);
                if b - 1 > a {
                    assert(wrapper_less(s[a], s[b - 1]));
                }
            } else if a == k {
                assert(t[b] == s[b - 1]);
                assert(!wrapper_less(s[b - 1], w));
                assert(!wrapper_equiv(s[b - 1], w));
            } else {
                assert(t[a] == s[a - 1] && t[b] == s[b - 1]);
            }
        }
    }
}

/// The results that storing each of `ws` in turn, from no results, leaves.
pub open spec fn stored_results(ws: Seq<PlayerHighscoresWrapper>) -> Seq<PlayerHighscoresWrapper>
    decreases ws.len(),
{
    if ws.len() == 0 {
        Seq::empty()
    } else {
        insert_score(stored_results(ws.drop_last()), ws.last())
    }
}

/// The best result is the greatest of all that were stored. `new` starts with no results and
/// each `store` leaves `insert_score` of the results before it, so storing the results `ws` one
/// after another leaves `stored_results(ws)` (see `lemma_stored_results_push`), whose last
/// result is what `best` returns. There is one exactly when `ws` is not empty; it is one of
/// `ws`, and no result of `ws` has a higher score, nor the same score at a later time.
pub proof fn lemma_best_of_stored(ws: Seq<PlayerHighscoresWrapper>)
    ensures
        sorted_scores(stored_results(ws)),
        stored_results(ws).len() == 0 <==> ws.len() == 0,
        ws.len() > 0 ==> exists|j: int| 0 <= j < ws.len() && stored_results(ws).last() == ws[j],
        forall|i: int| 0 <= i < ws.len() ==> !wrapper_less(stored_results(ws).last(), #[trigger] ws[i]),
    decreases ws.len(),
{
    if ws.len() > 0 {
        let p = ws.drop_last();
        let w = ws.last();
        let s = stored_results(p);
        let t = insert_score(s, w);
        lemma_best_of_stored(p);
        lemma_insert_score_sorted(s, w);
        assert(t == stored_results(ws));
        if has_equiv(s, w) {
            let k = choose|k: int| 0 <= k < s.len() && wrapper_equiv(#[trigger] s[k], w);
            if k < s.len() - 1 {
                assert(wrapper_less(s[k], s[s.len() - 1]));
            }
            let j = choose|j: int| 0 <= j < p.len() && s.last() == p[j];
            assert(p[j] == ws[j]);
            assert forall|i: int| 0 <= i < ws.len() implies !wrapper_less(t.last(), #[trigger] ws[i]) by {
                if i < p.len() {
                    assert(p[i] == ws[i]);
                }
            }
        } else {
            lemma_count_less_splits(s, w);
            let k = count_less(s, w) as int;
            if k < s.len() {
                assert(t.last() == s.last());
                assert(!wrapper_less(s[s.len() - 1], w));
                let j = choose|j: int| 0 <= j < p.len() && s.last() == p[j];
                assert(p[j] == ws[j]);
                assert forall|i: int| 0 <= i < ws.len() implies !wrapper_less(t.last(), #[trigger] ws[i]) by {
                    if i < p.len() {
                        assert(p[i] == ws[i]);
                    }
                }
            } else {
                assert(t.last() == w);
                assert(ws[ws.len() - 1] == w);
                assert forall|i: int| 0 <= i < ws.len() implies !wrapper_less(t.last(), #[trigger] ws[i]) by {
                    if i < p.len() {
                        assert(p[i] == ws[i]);
                        if s.len() > 0 {
                            assert(wrapper_less(s[s.len() - 1], w));
                        }
                    }
                }
            }
        }
    }
}

/// Storing one more result `w` after the results `ws` leaves what `store` makes of the results
/// `ws` left.
pub proof fn lemma_stored_results_push(ws: Seq<PlayerHighscoresWrapper>, w: PlayerHighscoresWrapper)
    ensures
        stored_results(ws.push(w)) == insert_score(stored_results(ws), w),
        stored_results(Seq::<PlayerHighscoresWrapper>::empty()) == Seq::<PlayerHighscoresWrapper>::empty(),
{
    assert(ws.push(w).drop_last() =~= ws);
}

} // verus!
