//! The backing-store contract the cache consumes, and the cache's errors.

use crate::query::Query;
use crate::record::Data;
use crate::record::DataMarker;
use std::sync::Arc;
use vstd::prelude::*;

verus! {

/// An error from a cache read.
#[derive(Debug)]
pub enum CacheError<E> {
    /// A required lookup matched nothing: either the backing store reported
    /// no match earlier and that miss is still remembered, or the caller
    /// asked for one record where none exists.
    NotFound,
    /// The backing store failed. The executor's own error is held shared,
    /// so every caller awaiting the same load can hold the one value.
    Backing(Arc<E>),
}

/// The backing-store contract, implemented by the application once per
/// record type. Every operation may fail with the implementation's own
/// error, and the cache assumes nothing about an operation's result beyond
/// its type — except that `get_id` names the record's primary key.
pub trait DataQueryExecutor<D: DataMarker>: Sized {
    type Error;

    /// The primary key of a record.
    fn get_id(&self, data: &D) -> (i: u64)
        ensures
            i == data.id_spec(),
    ;

    /// Fetches the one record matching a query; no match is an error.
    fn find_one(&mut self, query: &Query) -> Result<D, Self::Error>;

    /// Fetches the ids of all records matching a query, or of all records
    /// when no query is given.
    fn find_all_ids(&mut self, query: Option<&Query>) -> Result<Vec<u64>, Self::Error>;

    /// Fetches the record matching a query, or reports that none does.
    fn find_optional(&mut self, query: &Query) -> Result<Option<D>, Self::Error>;

    /// Persists a new record.
    fn create(&mut self, data: Data<D>) -> Result<(), Self::Error>;

    /// Persists an update to a record.
    fn update(&mut self, data: Data<D>) -> Result<(), Self::Error>;

    /// Deletes every record matching a query; reports the ids it removed.
    fn delete(&mut self, query: &Query) -> Result<Vec<u64>, Self::Error>;
}

} // verus!
