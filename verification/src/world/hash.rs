use crate::world::io_error::GameWorldParseError;
use crate::world::GameWorld;
use sha2::{Digest, Sha256};
use vstd::prelude::*;

verus! {

/// The SHA-256 digest of a sequence of bytes.
pub uninterp spec fn spec_sha256(data: Seq<u8>) -> Seq<u8>;

/// `sha2::Sha256`: the SHA-256 digest of `data`, which depends on `data` alone.
#[verifier::external_body]
pub(crate) fn sha256(data: &[u8]) -> (r: [u8; 32])
    ensures
        r@ == spec_sha256(data@),
{
    let mut hasher = Sha256::new();
    hasher.update(data);
    hasher.finalize().into()
}

/// The outcome of recomputing the hash of a map.
#[derive(Debug)]
pub enum RecomputeHashResult {
    /// The hash remained the same after re-computation
    SAME,
    /// The hash changed
    CHANGED { old_hash: [u8; 32] },
    /// There was an error computing the hash
    ERROR { error: GameWorldParseError },
}

impl GameWorld {
    /// Recompute the hash of this map from its width, height and tiles, store it, and tell
    /// whether it changed. Afterwards the map carries the hash of its own content, so calling
    /// this again at once finds the hash the same.
    pub fn recompute_hash(&mut self) -> (r: RecomputeHashResult)
        ensures
            final(self).spec_hash() == spec_sha256(old(self).spec_content_bytes()),
            final(self).spec_hash() == spec_sha256(final(self).spec_content_bytes()),
            final(self).spec_name() == old(self).spec_name(),
            final(self).spec_author() == old(self).spec_author(),
            final(self).spec_filename() == old(self).spec_filename(),
            final(self).spec_clean() == old(self).spec_clean(),
            final(self).spec_messages() == old(self).spec_messages(),
            final(self).spec_forced_tileset() == old(self).spec_forced_tileset(),
            old(self).same_grid(*final(self)),
            r is SAME <==> old(self).spec_hash() == final(self).spec_hash(),
            r matches RecomputeHashResult::CHANGED { old_hash } ==> old_hash@ == old(self).spec_hash(),
            !(r is ERROR),
    {
        let old_hash: [u8; 32] = *self.hash();
        let buf = match self.serialize_world_content() {
            Ok(b) => b,
            Err(error) => return RecomputeHashResult::ERROR { error },
        };
        let new_hash = sha256(buf.as_slice());
        self.set_hash(new_hash);
        let mut equal: usize = 0;
        let mut i: usize = 0;
        while i < 32
            invariant
                i <= 32,
                equal <= i,
                new_hash@.len() == 32,
                old_hash@.len() == 32,
                equal == i <==> (forall|j: int| 0 <= j < i ==> new_hash@[j] == old_hash@[j]),
            decreases 32 - i,
        {
            if new_hash[i] == old_hash[i] {
                equal += 1;
            }
            i += 1;
        }
        proof {
            lemma_content_depends_on_grid(*old(self), *self);
        }
        if equal == 32 {
            assert(new_hash@ =~= old_hash@);
            RecomputeHashResult::SAME
        } else {
            RecomputeHashResult::CHANGED { old_hash }
        }
    }
}

/// The content that a map's hash is computed over depends on the map's size and tiles alone:
/// two maps that agree in them have the same content, whatever their names, authors, spawns,
/// messages or tile sets.
pub proof fn lemma_content_depends_on_grid(a: GameWorld, b: GameWorld)
    requires
        a.spec_width() == b.spec_width(),
        a.spec_height() == b.spec_height(),
        forall|x: int, y: int| a.in_bounds(x, y) ==> #[trigger] a.spec_tile(x, y) == b.spec_tile(x, y),
    ensures
        a.spec_content_bytes() == b.spec_content_bytes(),
{
    let wd = a.spec_width() as int;
    let ht = a.spec_height() as int;
    assert forall|k: int| 0 <= k < wd * ht implies #[trigger] a.spec_tile_bytes()[k] == b.spec_tile_bytes()[k] by {
        assert(wd > 0) by (nonlinear_arith)
            requires
                0 <= k < wd * ht,
                wd >= 0,
                ht >= 0,
        ;
        vstd::arithmetic::div_mod::lemma_mod_pos_bound(k, wd);
        vstd::arithmetic::div_mod::lemma_multiply_divide_lt(k, wd, ht);
        vstd::arithmetic::div_mod::lemma_div_pos_is_pos(k, wd);
        assert(a.in_bounds(k % wd, k / wd));
    }
    assert(a.spec_tile_bytes() =~= b.spec_tile_bytes());
}

/// Recomputing the hash of a map whose hash was just recomputed finds the same hash: after
/// `recompute_hash`, the map carries the hash of its own content.
pub proof fn lemma_recompute_hash_settles(before: GameWorld, after: GameWorld)
    requires
        after.spec_hash() == spec_sha256(before.spec_content_bytes()),
        before.same_grid(after),
    ensures
        after.spec_hash() == spec_sha256(after.spec_content_bytes()),
{
    lemma_content_depends_on_grid(before, after);
}

/// The hash that `recompute_hash` gives a map depends on its size and tiles alone: two maps
/// that agree in them get the same hash, whatever their names, authors, spawns, messages or
/// tile sets. So setting a tile and setting it back gives the map its old hash again.
pub proof fn lemma_hash_depends_on_grid(a: GameWorld, b: GameWorld)
    requires
        a.spec_width() == b.spec_width(),
        a.spec_height() == b.spec_height(),
        forall|x: int, y: int| a.in_bounds(x, y) ==> #[trigger] a.spec_tile(x, y) == b.spec_tile(x, y),
    ensures
        spec_sha256(a.spec_content_bytes()) == spec_sha256(b.spec_content_bytes()),
{
    lemma_content_depends_on_grid(a, b);
}

} // verus!
