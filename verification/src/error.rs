//! The store's error taxonomy.
//!
//! Failures of the underlying embedded engine surface as `Internal`.
//! Conditions the surrounding application treats as precondition
//! violations — a lookup of an absent key, an untitled item during
//! ingestion — and decoding failures are reported as explicit kinds
//! rather than crashing the process.

use vstd::prelude::*;

verus! {

/// An episode store failure.
#[derive(Debug)]
pub enum StoreError {
    /// Internal error in the underlying database.
    Internal(sled::Error),
    /// The key addresses no record; the caller was expected to have
    /// validated existence beforehand.
    NotFound,
    /// Stored bytes do not decode to an episode record: on-disk
    /// corruption or a schema mismatch.
    CorruptRecord,
    /// A resolvable feed item lacks a title, so no key can be derived
    /// for it.
    UntitledItem,
}

} // verus!
