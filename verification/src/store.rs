//! The episode store: a named partition of an embedded key-value
//! database, mapping 8-byte derived keys to serialized episode records.
//!
//! The partition's contents are modelled as a map from byte keys to byte
//! values; every operation's contract is stated over that map. Ingestion
//! resolves each item of a channel, persists the resolvable ones and
//! skips the rest; no item failure aborts the batch.

use crate::engine::db_open_tree;
use crate::engine::tree_entries;
use crate::engine::tree_get;
use crate::engine::tree_insert;
use crate::engine::tree_remove;
use crate::episode::spec_deserialize;
use crate::episode::spec_encode;
use crate::episode::spec_serialize;
use crate::episode::Episode;
use crate::error::StoreError;
use crate::feed::Channel;
use crate::feed::FeedItem;
use crate::key::spec_key_bytes;
use crate::key::Key;
use crate::resolve::spec_resolve_duration;
use crate::resolve::spec_resolve_url;
use vstd::prelude::*;

verus! {

/// True when both required fields of an item resolve.
pub open spec fn spec_resolvable(item: FeedItem) -> bool {
    spec_resolve_url(item) is Some && spec_resolve_duration(item) is Some
}

/// One ingestion step: a resolvable, titled item writes its serialized
/// record at its derived key; any other item leaves the partition
/// unchanged.
pub open spec fn spec_ingest_one(m: Map<Seq<u8>, Seq<u8>>, id: u64, item: FeedItem) -> Map<
    Seq<u8>,
    Seq<u8>,
> {
    if spec_resolvable(item) {
        match item.title {
            Some(t) => m.insert(
                spec_key_bytes(id, t@),
                spec_encode(spec_resolve_url(item)->Some_0, spec_resolve_duration(item)->Some_0),
            ),
            None => m,
        }
    } else {
        m
    }
}

/// Partition contents after ingesting `items`, in order, into `m`.
pub open spec fn spec_ingest(m: Map<Seq<u8>, Seq<u8>>, id: u64, items: Seq<FeedItem>) -> Map<
    Seq<u8>,
    Seq<u8>,
>
    decreases items.len(),
{
    if items.len() == 0 {
        m
    } else {
        spec_ingest_one(spec_ingest(m, id, items.drop_last()), id, items.last())
    }
}

/// Handle to the store's partition of the embedded database. Cloning
/// yields another handle to the same partition — an alias, not a
/// snapshot. The contracts model a handle's contents as a function of
/// the handle value, so verified reasoning assumes handles are used
/// linearly: writing through one clone and reading through another is
/// outside what they describe.
#[derive(Clone, Debug)]
pub struct Episodes {
    tree: sled::Tree,
}

impl Episodes {
    /// The partition's current contents.
    pub closed spec fn entries(self) -> Map<Seq<u8>, Seq<u8>> {
        tree_entries(self.tree)
    }

    /// Binds to, creating it if absent, the store's named partition
    /// within the given database instance; fails only if the underlying
    /// engine cannot open the partition.
    pub fn open(db: &sled::Db) -> (r: Result<Episodes, StoreError>)
        ensures
            r is Err ==> r matches Err(StoreError::Internal(_)),
    {
        match db_open_tree(db, "episodes") {
            Ok(tree) => Ok(Episodes { tree }),
            Err(e) => Err(StoreError::Internal(e)),
        }
    }

    /// Serializes the record and writes it at the key, unconditionally
    /// overwriting any record already there.
    pub fn add(&mut self, key: Key, item: Episode) -> (r: Result<(), StoreError>)
        ensures
            r is Ok ==> final(self).entries() == old(self).entries().insert(
                key@,
                spec_serialize(item),
            ),
            r is Err ==> (r matches Err(StoreError::Internal(_))) && (final(self).entries()
                == old(self).entries() || final(self).entries() == old(self).entries().insert(
                key@,
                spec_serialize(item),
            )),
    {
        let bytes = item.serialize();
        match tree_insert(&mut self.tree, key.as_ref(), bytes.as_slice()) {
            Ok(()) => Ok(()),
            Err(e) => Err(StoreError::Internal(e)),
        }
    }

    /// Looks the key up and decodes the stored record. An absent key is
    /// reported as `NotFound`; bytes that do not decode are reported as
    /// `CorruptRecord`.
    pub fn get(&self, key: Key) -> (r: Result<Episode, StoreError>)
        ensures
            match r {
                Ok(ep) => self.entries().contains_key(key@) && spec_deserialize(
                    self.entries()[key@],
                ) == Some((ep.stream_url@, ep.duration.millis)),
                Err(StoreError::NotFound) => !self.entries().contains_key(key@),
                Err(StoreError::CorruptRecord) => self.entries().contains_key(key@)
                    && spec_deserialize(self.entries()[key@]) is None,
                Err(StoreError::Internal(_)) => true,
                Err(StoreError::UntitledItem) => false,
            },
    {
        match tree_get(&self.tree, key.as_ref()) {
            Ok(Some(bytes)) => match Episode::deserialize(bytes.as_slice()) {
                Some(ep) => Ok(ep),
                None => Err(StoreError::CorruptRecord),
            },
            Ok(None) => Err(StoreError::NotFound),
            Err(e) => Err(StoreError::Internal(e)),
        }
    }

    /// Deletes the mapping at the key; the key's absence is not an
    /// error, and afterwards the key is unbound.
    pub fn remove(&mut self, key: Key) -> (r: Result<(), StoreError>)
        ensures
            r is Ok ==> final(self).entries() == old(self).entries().remove(key@)
                && !(final(self).entries().contains_key(key@)),
            r is Err ==> (r matches Err(StoreError::Internal(_))) && (final(self).entries()
                == old(self).entries() || final(self).entries() == old(self).entries().remove(
                key@,
            )),
    {
        match tree_remove(&mut self.tree, key.as_ref()) {
            Ok(()) => Ok(()),
            Err(e) => Err(StoreError::Internal(e)),
        }
    }

    /// Ingests a channel: resolves every item in order, persists each
    /// resolvable one at the key derived from the owner id and the item
    /// title, and skips items that fail resolution without aborting the
    /// batch. A resolvable item with no title stops ingestion with
    /// `UntitledItem`; an engine failure stops it with `Internal`; only
    /// resolvable items reach the engine, so a channel with none always
    /// succeeds. On any failure the partition holds the fold over a
    /// processed prefix of the items.
    pub fn add_feed(&mut self, id: u64, info: Channel) -> (r: Result<(), StoreError>)
        ensures
            r is Ok ==> final(self).entries() == spec_ingest(
                old(self).entries(),
                id,
                info.items@,
            ),
            r is Ok ==> forall|i: int|
                0 <= i < info.items@.len() && #[trigger] spec_resolvable(info.items@[i])
                    ==> info.items@[i].title is Some,
            (forall|i: int|
                0 <= i < info.items@.len() ==> !(#[trigger] spec_resolvable(info.items@[i])))
                ==> r is Ok,
            (forall|i: int|
                0 <= i < info.items@.len() && #[trigger] spec_resolvable(info.items@[i])
                    ==> info.items@[i].title is Some) ==> !(r matches Err(StoreError::UntitledItem)),
            r matches Err(StoreError::UntitledItem) ==> exists|i: int|
                0 <= i < info.items@.len() && #[trigger] spec_resolvable(info.items@[i])
                    && info.items@[i].title is None,
            r is Err ==> exists|k: int|
                0 <= k <= info.items@.len() && final(self).entries() == spec_ingest(
                    old(self).entries(),
                    id,
                    #[trigger] info.items@.take(k),
                ),
            r is Err ==> (r matches Err(StoreError::UntitledItem) || r matches Err(
                StoreError::Internal(_),
            )),
    {
        let n = info.items.len();
        let mut j: usize = 0;
        proof {
            assert(info.items@.take(0) =~= Seq::<FeedItem>::empty());
        }
        while j < n
            invariant
                j <= n,
                n == info.items@.len(),
                self.entries() == spec_ingest(old(self).entries(), id, info.items@.take(j as int)),
                forall|i: int|
                    0 <= i < j && #[trigger] spec_resolvable(info.items@[i])
                        ==> info.items@[i].title is Some,
            decreases n - j,
        {
            let item = &info.items[j];
            proof {
                assert(info.items@.take(j + 1).drop_last() =~= info.items@.take(j as int));
                assert(info.items@.take(j + 1).last() == info.items@[j as int]);
            }
            match Episode::try_from(item) {
                Err(_) => {},
                Ok(ep) => {
                    let title = match &item.title {
                        Some(t) => t,
                        None => {
                            proof {
                                assert(spec_resolvable(info.items@[j as int]));
                                assert(info.items@[j as int].title is None);
                            }
                            return Err(StoreError::UntitledItem);
                        },
                    };
                    let key = Key::from((id, title.as_str()));
                    match self.add(key, ep) {
                        Ok(()) => {},
                        Err(e) => {
                            proof {
                                assert(spec_resolvable(info.items@[j as int]));
                            }
                            return Err(e);
                        },
                    }
                },
            }
            j += 1;
        }
        proof {
            assert(info.items@.take(n as int) =~= info.items@);
        }
        Ok(())
    }
}

/// Law: batch ingestion persists each resolvable, titled item — after
/// the fold, the item's derived key is bound to exactly the item's
/// record, provided no later item of the batch derives the same key.
pub proof fn lemma_ingest_persists(m: Map<Seq<u8>, Seq<u8>>, id: u64, items: Seq<FeedItem>, i: int)
    requires
        0 <= i < items.len(),
        spec_resolvable(items[i]),
        items[i].title is Some,
        forall|j: int|
            i < j < items.len() && #[trigger] spec_resolvable(items[j]) && items[j].title is Some
                ==> spec_key_bytes(id, items[j].title->Some_0@) != spec_key_bytes(
                id,
                items[i].title->Some_0@,
            ),
    ensures
        spec_ingest(m, id, items).contains_key(spec_key_bytes(id, items[i].title->Some_0@)),
        spec_ingest(m, id, items)[spec_key_bytes(id, items[i].title->Some_0@)] == spec_encode(
            spec_resolve_url(items[i])->Some_0,
            spec_resolve_duration(items[i])->Some_0,
        ),
    decreases items.len(),
{
    if i == items.len() - 1 {
        assert(items.last() == items[i]);
    } else {
        assert(forall|j: int|
            0 <= j < items.len() - 1 ==> #[trigger] items.drop_last()[j] == items[j]);
        lemma_ingest_persists(m, id, items.drop_last(), i);
        assert(items.last() == items[items.len() - 1]);
    }
}

/// Law: batch ingestion leaves every other key untouched — a key that
/// no resolvable, titled item of the batch derives keeps exactly the
/// binding it had before the fold; in particular, an item that fails
/// resolution leaves no record behind.
pub proof fn lemma_ingest_untouched(
    m: Map<Seq<u8>, Seq<u8>>,
    id: u64,
    items: Seq<FeedItem>,
    k: Seq<u8>,
)
    requires
        forall|j: int|
            0 <= j < items.len() && #[trigger] spec_resolvable(items[j]) && items[j].title is Some
                ==> spec_key_bytes(id, items[j].title->Some_0@) != k,
    ensures
        spec_ingest(m, id, items).contains_key(k) == m.contains_key(k),
        m.contains_key(k) ==> spec_ingest(m, id, items)[k] == m[k],
    decreases items.len(),
{
    if items.len() > 0 {
        assert(forall|j: int|
            0 <= j < items.len() - 1 ==> #[trigger] items.drop_last()[j] == items[j]);
        lemma_ingest_untouched(m, id, items.drop_last(), k);
        assert(items.last() == items[items.len() - 1]);
    }
}

/// Law: writes at one key are deterministic — after two writes at the
/// same key the partition holds the later record; a key collision
/// overwrites rather than accumulates.
pub proof fn lemma_overwrite_last_write_wins(
    m: Map<Seq<u8>, Seq<u8>>,
    k: Seq<u8>,
    v1: Seq<u8>,
    v2: Seq<u8>,
)
    ensures
        m.insert(k, v1).insert(k, v2) == m.insert(k, v2),
        m.insert(k, v2)[k] == v2,
{
    assert(m.insert(k, v1).insert(k, v2) =~= m.insert(k, v2));
}

} // verus!
