//! Record handles, the record-type contract, and typed references.

use crate::query::Query;
use crate::query::QueryKey;
use std::sync::Arc;
use vstd::prelude::*;
use vstd::std_specs::cmp::PartialEqSpec;

verus! {

/// The contract a record type fulfils toward the cache: it knows its own
/// primary key, and it enumerates the queries under which it should be
/// indexed. The schema collaborator supplies an implementation per record
/// type.
pub trait DataMarker: Sized {
    /// The record's primary key.
    spec fn id_spec(&self) -> u64;

    /// The keys of the index entries this record should be found under.
    spec fn queries_spec(&self) -> Seq<QueryKey>;

    /// Enumerates the queries under which this record should be indexed.
    fn create_queries(&self) -> (qs: Vec<Query>)
        ensures
            qs@.map_values(|q: Query| q@) == self.queries_spec(),
    ;
}

/// Relies on `Arc::clone`: the returned handle refers to the same value.
#[verifier::external_body]
fn share<T>(a: &Arc<T>) -> (r: Arc<T>)
    ensures
        r == *a,
{
    Arc::clone(a)
}

/// Relies on `Arc::as_ref`: the reference is to the held value.
#[verifier::external_body]
fn peek<T>(a: &Arc<T>) -> (r: &T)
    ensures
        *r == *a,
{
    a.as_ref()
}

/// A shared, immutable handle to one fetched record. All holders see the
/// same value; cloning shares rather than copies. Equality and hashing
/// delegate to the wrapped record.
#[derive(Debug, Hash)]
pub struct Data<T>(Arc<T>);

impl<T> View for Data<T> {
    type V = T;

    closed spec fn view(&self) -> T {
        *self.0
    }
}

impl<T: DataMarker> Data<T> {
    /// Wraps a record into a shared handle.
    pub fn new(data: T) -> (r: Self)
        ensures
            r@ == data,
    {
        Data(Arc::new(data))
    }
}

impl<T> Data<T> {
    /// A reference to the wrapped record.
    pub fn get(&self) -> (r: &T)
        ensures
            *r == self@,
    {
        peek(&self.0)
    }
}

impl<T> Clone for Data<T> {
    /// Shares the handle: the clone holds the same record.
    fn clone(&self) -> (r: Self)
        ensures
            r == *self,
    {
        Data(share(&self.0))
    }
}

impl<T: PartialEq> PartialEq for Data<T> {
    fn eq(&self, other: &Data<T>) -> (r: bool) {
        self.get().eq(other.get())
    }
}

impl<T: PartialEq> vstd::std_specs::cmp::PartialEqSpecImpl for Data<T> {
    open spec fn obeys_eq_spec() -> bool {
        T::obeys_eq_spec()
    }

    open spec fn eq_spec(&self, other: &Data<T>) -> bool {
        self@.eq_spec(&other@)
    }
}

impl<T: Eq> Eq for Data<T> {}

impl<T: DataMarker> DataMarker for Data<T> {
    open spec fn id_spec(&self) -> u64 {
        self@.id_spec()
    }

    open spec fn queries_spec(&self) -> Seq<QueryKey> {
        self@.queries_spec()
    }

    fn create_queries(&self) -> (qs: Vec<Query>) {
        self.get().create_queries()
    }
}

/// A typed reference to a record: the query that finds it, tagged with the
/// record type it resolves in.
pub struct DataRef<D: DataMarker>(pub Query, pub core::marker::PhantomData<D>);

impl<D: DataMarker> DataRef<D> {
    /// Wraps a query as a typed reference.
    pub fn new(query: Query) -> (r: Self)
        ensures
            r.0 == query,
    {
        DataRef(query, core::marker::PhantomData)
    }
}

impl<D: DataMarker> Clone for DataRef<D> {
    fn clone(&self) -> (r: Self)
        ensures
            r.0 == self.0,
    {
        DataRef(self.0.clone(), core::marker::PhantomData)
    }
}

} // verus!
