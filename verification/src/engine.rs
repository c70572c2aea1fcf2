//! Trusted boundary to the embedded key-value engine.
//!
//! The engine's database, partition and error types are declared here,
//! and a partition's contents are modelled as a map from byte keys to
//! byte values. Each wrapper states, over that model, what the engine's
//! source shows of the one call its body makes; nothing else about the
//! engine is assumed.
//!
//! The model makes a handle's contents a function of the handle value,
//! while a cloned handle is an alias of the same partition, not a
//! snapshot. Verified reasoning therefore assumes handles are used
//! linearly: code that writes through one clone and reads through
//! another is outside what these contracts describe.

use vstd::prelude::*;

verus! {

#[verifier::external_type_specification]
#[verifier::external_body]
pub struct ExDb(sled::Db);

#[verifier::external_type_specification]
#[verifier::external_body]
pub struct ExTree(sled::Tree);

#[verifier::external_type_specification]
#[verifier::external_body]
pub struct ExEngineError(sled::Error);

/// Contents of a store partition: the byte-key to byte-value mapping it
/// currently holds.
pub uninterp spec fn tree_entries(t: sled::Tree) -> Map<Seq<u8>, Seq<u8>>;

/// Relies on `sled::Tree::clone`: a cloned handle refers to the same
/// partition, so at the moment of cloning it holds the same contents.
/// The clone is an alias, not a snapshot: a later write through one
/// handle is not reflected in the model of the other.
pub assume_specification[ <sled::Tree as Clone>::clone ](t: &sled::Tree) -> (r: sled::Tree)
    ensures
        tree_entries(r) == tree_entries(*t),
;

/// Relies on `sled::Db::open_tree`: opens, creating it if absent, the
/// named partition of the database; its contents are whatever the disk
/// holds.
#[verifier::external_body]
pub(crate) fn db_open_tree(db: &sled::Db, name: &str) -> (r: Result<sled::Tree, sled::Error>) {
    db.open_tree(name)
}

/// Relies on `sled::Tree::insert`: on success the tree maps the key to
/// the value, leaving every other key untouched. On failure the update
/// either did not happen or had already been installed before a later
/// completion step failed, so the tree holds one of the two states and
/// nothing else.
#[verifier::external_body]
pub(crate) fn tree_insert(tree: &mut sled::Tree, key: &[u8], value: &[u8]) -> (r: Result<
    (),
    sled::Error,
>)
    ensures
        r is Ok ==> tree_entries(*final(tree)) == tree_entries(*old(tree)).insert(key@, value@),
        r is Err ==> tree_entries(*final(tree)) == tree_entries(*old(tree)) || tree_entries(
            *final(tree),
        ) == tree_entries(*old(tree)).insert(key@, value@),
{
    tree.insert(key, value).map(|_| ())
}

/// Relies on `sled::Tree::get`: yields the value the tree maps the key
/// to, or nothing when the key is unbound.
#[verifier::external_body]
pub(crate) fn tree_get(tree: &sled::Tree, key: &[u8]) -> (r: Result<Option<Vec<u8>>, sled::Error>)
    ensures
        match r {
            Ok(Some(v)) => tree_entries(*tree).contains_key(key@) && v@ == tree_entries(
                *tree,
            )[key@],
            Ok(None) => !tree_entries(*tree).contains_key(key@),
            Err(_) => true,
        },
{
    match tree.get(key) {
        Ok(Some(v)) => Ok(Some(v.to_vec())),
        Ok(None) => Ok(None),
        Err(e) => Err(e),
    }
}

/// Relies on `sled::Tree::remove`: on success the key is unbound and
/// every other key is untouched; removing an absent key also succeeds.
/// On failure the deletion either did not happen or had already been
/// installed before a later completion step failed — the same two
/// states as in `tree_insert`, which shares the update path.
#[verifier::external_body]
pub(crate) fn tree_remove(tree: &mut sled::Tree, key: &[u8]) -> (r: Result<(), sled::Error>)
    ensures
        r is Ok ==> tree_entries(*final(tree)) == tree_entries(*old(tree)).remove(key@),
        r is Err ==> tree_entries(*final(tree)) == tree_entries(*old(tree)) || tree_entries(
            *final(tree),
        ) == tree_entries(*old(tree)).remove(key@),
{
    tree.remove(key).map(|_| ())
}

} // verus!
