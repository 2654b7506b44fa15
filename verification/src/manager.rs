//! The type registry (storage manager): one cache per record type.
//!
//! The registry holds the application's storages behind one handle type and
//! two tables: storages by their own identity tag, and a binding from each
//! record type's tag to the identity of the storage registered for it. A
//! caller can retrieve a storage by naming the record type or by naming the
//! storage identity, without knowing every registered type ahead of time.

use crate::table::Table;
use vstd::prelude::*;

verus! {

/// A registered storage as the registry holds it: the application's handle
/// type, which names by tag the record type it serves and its own identity.
/// Tags play the role of type identities; the application assigns them, one
/// per record type and one per storage type.
pub trait StorageHandle: Sized {
    /// The tag of the record type this storage serves.
    spec fn record_tag_spec(&self) -> u64;

    /// The tag of the storage's own identity.
    spec fn storage_tag_spec(&self) -> u64;

    /// Names the record type this storage serves.
    fn record_tag(&self) -> (t: u64)
        ensures
            t == self.record_tag_spec(),
    ;

    /// Names the storage's own identity.
    fn storage_tag(&self) -> (t: u64)
        ensures
            t == self.storage_tag_spec(),
    ;
}

/// The registry: holds one storage instance per storage identity, and for
/// each record type the identity of the storage last registered for it.
pub struct StorageManager<H: StorageHandle> {
    storage: Table<u64, H>,
    data: Table<u64, u64>,
}

impl<H: StorageHandle> StorageManager<H> {
    /// The registered storages, by storage identity tag.
    pub closed spec fn storages(&self) -> Map<u64, H> {
        self.storage@
    }

    /// The record-type tag to storage identity bindings.
    pub closed spec fn bindings(&self) -> Map<u64, u64> {
        self.data@
    }

    /// An empty registry.
    pub fn new() -> (r: Self)
        ensures
            r.storages() == Map::<u64, H>::empty(),
            r.bindings() == Map::<u64, u64>::empty(),
    {
        StorageManager { storage: Table::new(), data: Table::new() }
    }

    /// Registers a storage under its own identity and binds its record type
    /// to that identity. Registering a second storage for a record type that
    /// already has one overwrites the binding: last write wins.
    pub fn register_storage(&mut self, handle: H)
        ensures
            final(self).storages() == old(self).storages().insert(
                handle.storage_tag_spec(),
                handle,
            ),
            final(self).bindings() == old(self).bindings().insert(
                handle.record_tag_spec(),
                handle.storage_tag_spec(),
            ),
    {
        let s = handle.storage_tag();
        let d = handle.record_tag();
        self.data.insert(d, s);
        self.storage.insert(s, handle);
    }

    /// The storage registered for a record type, by the record type's tag;
    /// absent when none was registered, or when the bound storage was since
    /// removed.
    pub fn get_for_data(&self, record_tag: u64) -> (r: Option<&H>)
        ensures
            match r {
                Some(h) => self.bindings().contains_key(record_tag) && self.storages().contains_key(
                    self.bindings()[record_tag],
                ) && *h == self.storages()[self.bindings()[record_tag]],
                None => !self.bindings().contains_key(record_tag) || !self.storages().contains_key(
                    self.bindings()[record_tag],
                ),
            },
    {
        match self.data.get(&record_tag) {
            Some(id) => self.storage.get(id),
            None => None,
        }
    }

    /// The storage registered under a storage identity, by its tag.
    pub fn get_storage(&self, storage_tag: u64) -> (r: Option<&H>)
        ensures
            match r {
                Some(h) => self.storages().contains_key(storage_tag) && *h == self.storages()[
                    storage_tag
                ],
                None => !self.storages().contains_key(storage_tag),
            },
    {
        self.storage.get(&storage_tag)
    }

    /// Removes and returns the storage under a storage identity, for
    /// teardown or for working on it in place. A record-type binding that
    /// pointed at it is left in place and resolves to absence until a new
    /// storage is registered.
    pub fn get_and_remove(&mut self, storage_tag: u64) -> (r: Option<H>)
        ensures
            final(self).storages() == old(self).storages().remove(storage_tag),
            final(self).bindings() == old(self).bindings(),
            match r {
                Some(h) => old(self).storages().contains_key(storage_tag) && h == old(
                    self,
                ).storages()[storage_tag],
                None => !old(self).storages().contains_key(storage_tag),
            },
    {
        self.storage.remove(&storage_tag)
    }
}

} // verus!
