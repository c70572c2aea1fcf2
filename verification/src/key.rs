//! Derivation of the 8-byte episode key from the owning collection id and
//! the episode title.
//!
//! The key is the store's sole addressing mechanism. Equal `(id, title)`
//! pairs always derive equal keys; distinct pairs collide only with the
//! general-purpose hash's small probability, and a colliding write simply
//! overwrites the prior record.

use vstd::bytes::spec_u64_to_le_bytes;
use vstd::bytes::u64_to_le_bytes;
use vstd::prelude::*;

verus! {

/// Digest that the standard library's `DefaultHasher` assigns to an id
/// followed by a title. Uninterpreted: only its determinism is relied on.
pub uninterp spec fn key_hash_of(id: u64, title: Seq<char>) -> u64;

/// The bytes of the key derived from an `(id, title)` pair.
pub open spec fn spec_key_bytes(id: u64, title: Seq<char>) -> Seq<u8> {
    spec_u64_to_le_bytes(key_hash_of(id, title))
}

/// Relies on std's `DefaultHasher`: `DefaultHasher::new` always builds the
/// same initial state, so hashing the id and then the title leaves a
/// digest that depends on those two values alone.
#[verifier::external_body]
fn hash_id_title(id: u64, title: &str) -> (r: u64)
    ensures
        r == key_hash_of(id, title@),
{
    let mut hasher = std::collections::hash_map::DefaultHasher::new();
    std::hash::Hash::hash(&id, &mut hasher);
    std::hash::Hash::hash(title, &mut hasher);
    std::hash::Hasher::finish(&hasher)
}

/// An 8-byte key addressing one episode record within the store's
/// partition.
#[derive(Clone, Copy, Debug)]
pub struct Key {
    bytes: [u8; 8],
}

impl View for Key {
    type V = Seq<u8>;

    closed spec fn view(&self) -> Seq<u8> {
        self.bytes@
    }
}

impl Key {
    /// Derives the key for `(podcast_id, episode_title)`.
    pub fn from(pair: (u64, &str)) -> (r: Key)
        ensures
            r@ == spec_key_bytes(pair.0, pair.1@),
    {
        let (podcast_id, episode) = pair;
        let h = hash_id_title(podcast_id, episode);
        let v = u64_to_le_bytes(h);
        let bytes: [u8; 8] = [v[0], v[1], v[2], v[3], v[4], v[5], v[6], v[7]];
        proof {
            assert(bytes@ =~= spec_u64_to_le_bytes(h));
        }
        Key { bytes }
    }

    /// The key's bytes, as the store writes them.
    pub fn as_ref(&self) -> (r: &[u8])
        ensures
            r@ == self@,
    {
        self.bytes.as_slice()
    }
}

/// Every key's view holds exactly 8 bytes, however the key was built.
pub proof fn lemma_key_len(k: Key)
    ensures
        k@.len() == 8,
{
    assert(k.bytes@.len() == 8);
}

/// Law: key derivation is deterministic — deriving the key of equal
/// `(id, title)` pairs yields identical bytes.
pub proof fn lemma_key_deterministic(id1: u64, title1: Seq<char>, id2: u64, title2: Seq<char>)
    requires
        id1 == id2,
        title1 == title2,
    ensures
        spec_key_bytes(id1, title1) == spec_key_bytes(id2, title2),
{
}

} // verus!
