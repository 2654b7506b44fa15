//! The lookup capability: resolve a typed reference to a record, absorbing
//! backing-store errors into absence.

use crate::executor::CacheError;
use crate::executor::DataQueryExecutor;
use crate::record::Data;
use crate::record::DataMarker;
use crate::record::DataRef;
use crate::storage::DataStorage;
use vstd::prelude::*;

verus! {

/// The uniform resolve-a-reference operation, implemented by the
/// application on its registry: extract the query from the reference, find
/// the matching cache, ask it optionally, and convert errors to absence.
/// Absence is the only failure signal at this boundary.
pub trait LookupRef<D: DataMarker> {
    /// Resolves a typed reference to its record, or to absence.
    fn lookup(&mut self, reference: &DataRef<D>) -> Option<Data<D>>;
}

/// An error sink for lookups, injected by the application: it is handed
/// each failed load exactly once.
pub trait ErrorHandler<X>: Sized {
    /// How many errors this sink has been handed.
    spec fn handled(&self) -> nat;

    /// Takes note of one error.
    fn handle(&mut self, err: &X)
        ensures
            final(self).handled() == old(self).handled() + 1,
    ;
}

/// Resolves a reference through one storage, absorbing errors: the glue a
/// [`LookupRef`] implementation wraps around the storage it got from the
/// registry. A record or a miss passes through; a backing-store error is
/// handed to the sink exactly once and becomes absence.
pub fn lookup_or_absent<E, D, S, H>(storage: &mut S, reference: &DataRef<D>, handler: &mut H) -> (r:
    Option<Data<D>>) where
    E: DataQueryExecutor<D>,
    D: DataMarker,
    S: DataStorage<E, D>,
    H: ErrorHandler<CacheError<E::Error>>,

    ensures
        old(storage).model().hit(reference.0@) ==> (r matches Some(d) && d@ == old(storage).model()
            .hit_record(reference.0@) && final(storage).model() == old(storage).model() && final(handler).handled() == old(handler).handled()),
        (!old(storage).model().hit(reference.0@) && old(storage).model().remembered(reference.0@))
            ==> ({
            &&& final(storage).model().fetches == old(storage).model().fetches
            &&& final(handler).handled() == old(handler).handled()
            &&& match old(storage).model().pending[reference.0@] {
                Some(rec) => (r matches Some(d) && d@ == rec) && final(storage).model() == old(storage).model().store(rec),
                None => (r matches None) && final(storage).model() == old(storage).model(),
            }
        }),
        (!old(storage).model().hit(reference.0@) && !old(storage).model().remembered(
            reference.0@,
        )) ==> match r {
            Some(d) => final(storage).model() == old(storage).model().loaded(reference.0@, d@)
                && final(handler).handled() == old(handler).handled(),
            None => (final(storage).model() == old(storage).model().noted_miss(reference.0@)
                && final(handler).handled() == old(handler).handled()) || (final(storage).model()
                == old(storage).model().bumped() && final(handler).handled() == old(handler).handled() + 1),
        },
{
    match storage.find_optional(&reference.0) {
        Ok(v) => v,
        Err(e) => {
            handler.handle(&e);
            None
        },
    }
}

} // verus!
