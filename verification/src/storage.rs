//! The per-record-type cache engine.
//!
//! A [`DataCache`] serves reads by id or by query, keeps a secondary
//! query-to-id index consistent with its primary id-to-record cache, and
//! remembers the outcome of each load in a coalescing table so that
//! repeated lookups for the same query reach the backing store at most
//! once while the outcome is remembered. Its observable state is the
//! [`CacheModel`]; every operation's contract says exactly how it moves
//! that state.

use crate::executor::CacheError;
use crate::executor::DataQueryExecutor;
use crate::query::Query;
use crate::query::QueryKey;
use crate::record::Data;
use crate::record::DataMarker;
use crate::table::Table;
use std::sync::Arc;
use vstd::prelude::*;

verus! {

/// The observable state of a data cache: its three tables, and how many
/// backing-store calls it has made.
#[verifier::ext_equal]
pub struct CacheModel<D> {
    /// The primary cache: id to record.
    pub primary: Map<u64, D>,
    /// The secondary index: query to the id it was last seen resolving to.
    pub index: Map<QueryKey, u64>,
    /// The coalescing table: query to the outcome of its load — a record,
    /// or a remembered miss.
    pub pending: Map<QueryKey, Option<D>>,
    /// How many calls have gone to the backing store.
    pub fetches: nat,
}

impl<D: DataMarker> CacheModel<D> {
    /// The state of a freshly built cache.
    pub open spec fn empty() -> Self {
        CacheModel {
            primary: Map::empty(),
            index: Map::empty(),
            pending: Map::empty(),
            fetches: 0,
        }
    }

    /// The id a query resolves to without asking the backing store: a
    /// "by id" query names its id directly, any other is looked up in the
    /// secondary index.
    pub open spec fn resolve(self, q: QueryKey) -> Option<u64> {
        match q {
            QueryKey::ById(i) => Some(i),
            _ => if self.index.contains_key(q) {
                Some(self.index[q])
            } else {
                None
            },
        }
    }

    /// Whether a lookup for `q` is served from the primary cache alone.
    pub open spec fn hit(self, q: QueryKey) -> bool {
        match self.resolve(q) {
            Some(i) => self.primary.contains_key(i),
            None => false,
        }
    }

    /// The record a hit for `q` returns.
    pub open spec fn hit_record(self, q: QueryKey) -> D {
        self.primary[self.resolve(q)->Some_0]
    }

    /// An index in which every key of `qs` points at `id`, and every other
    /// binding is kept.
    pub open spec fn index_with(index: Map<QueryKey, u64>, qs: Seq<QueryKey>, id: u64) -> Map<
        QueryKey,
        u64,
    > {
        Map::new(
            |q: QueryKey| index.contains_key(q) || qs.contains(q),
            |q: QueryKey|
                if qs.contains(q) {
                    id
                } else {
                    index[q]
                },
        )
    }

    /// The state after one more backing-store call that changed nothing.
    pub open spec fn bumped(self) -> Self {
        CacheModel { fetches: self.fetches + 1, ..self }
    }

    /// The state after a record is written into the cache tables: the
    /// record stands under its id in the primary cache, and every query it
    /// indexes under points at that id.
    pub open spec fn store(self, d: D) -> Self {
        CacheModel {
            primary: self.primary.insert(d.id_spec(), d),
            index: Self::index_with(self.index, d.queries_spec(), d.id_spec()),
            ..self
        }
    }

    /// The state after a fresh load of `q` found record `d`: the outcome is
    /// remembered in the coalescing table, and the record is cached.
    pub open spec fn loaded(self, q: QueryKey, d: D) -> Self {
        (CacheModel { pending: self.pending.insert(q, Some(d)), fetches: self.fetches + 1, ..self }).store(d)
    }

    /// The state after a fresh load of `q` found nothing: the miss is
    /// remembered in the coalescing table.
    pub open spec fn noted_miss(self, q: QueryKey) -> Self {
        CacheModel { pending: self.pending.insert(q, None), fetches: self.fetches + 1, ..self }
    }

    /// The state after the index and coalescing entries for `q` are dropped.
    pub open spec fn dropped(self, q: QueryKey) -> Self {
        CacheModel { index: self.index.remove(q), pending: self.pending.remove(q), ..self }
    }

    /// The state after the records under `ids` are evicted from the primary
    /// cache.
    pub open spec fn evicted(self, ids: Seq<u64>) -> Self {
        CacheModel { primary: self.primary.remove_keys(ids.to_set()), ..self }
    }

    /// Every cached record stands under its own id. Caches start coherent
    /// and every operation keeps them so.
    pub open spec fn coherent(self) -> bool {
        forall|k: u64| #[trigger] self.primary.contains_key(k) ==> self.primary[k].id_spec() == k
    }

    /// A remembered load outcome for `q` that is still current: a
    /// remembered miss, or a remembered record whose id the primary cache
    /// still holds. A remembered record whose id was since evicted is
    /// stale and is not served: the query counts as cold again.
    pub open spec fn remembered(self, q: QueryKey) -> bool {
        self.pending.contains_key(q) && match self.pending[q] {
            Some(d) => self.primary.contains_key(d.id_spec()),
            None => true,
        }
    }
}

/// One step of by-id resolution, as `find_one`'s contract fixes it for a
/// "by id" query that succeeds: a cached record is served and nothing
/// changes; a remembered, still-cached record is served and re-stored; a
/// cold id costs one backing call whose record is then cached.
pub open spec fn resolved_by_id<D: DataMarker>(
    m: CacheModel<D>,
    i: u64,
    d: D,
    m2: CacheModel<D>,
) -> bool {
    if m.hit(QueryKey::ById(i)) {
        d == m.hit_record(QueryKey::ById(i)) && m2 == m
    } else if m.remembered(QueryKey::ById(i)) {
        m.pending[QueryKey::ById(i)] == Some(d) && m2 == m.store(d)
    } else {
        m2 == m.loaded(QueryKey::ById(i), d)
    }
}

/// The records a sequence of handles holds, in order.
pub open spec fn views_of<D>(vs: Seq<Data<D>>) -> Seq<D> {
    vs.map_values(|d: Data<D>| d@)
}

/// A by-id resolution trace: from each state to the next, one id at a
/// time, in order.
pub open spec fn by_id_trace<D: DataMarker>(
    ms: Seq<CacheModel<D>>,
    ids: Seq<u64>,
    ds: Seq<D>,
) -> bool {
    &&& ms.len() == ids.len() + 1
    &&& ds.len() == ids.len()
    &&& forall|j: int|
        0 <= j < ids.len() ==> #[trigger] resolved_by_id(ms[j], ids[j], ds[j], ms[j + 1])
}

/// From state `m0` to state `m1`, the handles `vs` resolve the ids `ids`,
/// one to one and in order, each by the by-id path: there is a resolution
/// trace between the two states.
pub open spec fn resolved_all<D: DataMarker>(
    m0: CacheModel<D>,
    ids: Seq<u64>,
    vs: Seq<Data<D>>,
    m1: CacheModel<D>,
) -> bool {
    &&& vs.len() == ids.len()
    &&& exists|ms: Seq<CacheModel<D>>|
        (#[trigger] by_id_trace(ms, ids, views_of(vs))) && ms[0] == m0 && ms[ids.len() as int]
            == m1
}

/// From state `m0` to state `m1`, the handles `vs` resolve some id listing,
/// one to one and in its order, each by the by-id path.
pub open spec fn listed_and_resolved<D: DataMarker>(
    m0: CacheModel<D>,
    vs: Seq<Data<D>>,
    m1: CacheModel<D>,
) -> bool {
    exists|ids: Seq<u64>| #[trigger] resolved_all(m0, ids, vs, m1)
}

/// What a record handle table holds, as records.
spec fn records_of<D>(m: Map<u64, Data<D>>) -> Map<u64, D> {
    Map::new(|k: u64| m.contains_key(k), |k: u64| m[k]@)
}

/// What a load-outcome table holds, as optional records.
spec fn outcomes_of<D>(m: Map<QueryKey, Option<Data<D>>>) -> Map<QueryKey, Option<D>> {
    Map::new(
        |q: QueryKey| m.contains_key(q),
        |q: QueryKey|
            match m[q] {
                Some(d) => Some(d@),
                None => None,
            },
    )
}

/// The cache engine for one record type: a read-through cache over an
/// executor, with a primary id cache, a secondary query index, and a
/// coalescing table of load outcomes.
pub struct DataCache<E: DataQueryExecutor<D>, D: DataMarker> {
    executor: E,
    data: Table<u64, Data<D>>,
    query_cache: Table<Query, Option<Data<D>>>,
    query: Table<Query, u64>,
    fetches: Ghost<nat>,
}

impl<E: DataQueryExecutor<D>, D: DataMarker> DataCache<E, D> {
    /// A cache with empty tables around the given executor.
    pub fn new(executor: E) -> (r: Self)
        ensures
            r.model() == CacheModel::<D>::empty(),
            r.exec_state() == executor,
    {
        let r = DataCache {
            executor,
            data: Table::new(),
            query_cache: Table::new(),
            query: Table::new(),
            fetches: Ghost(0nat),
        };
        proof {
            assert(records_of(r.data@) =~= Map::<u64, D>::empty());
            assert(outcomes_of(r.query_cache@) =~= Map::<QueryKey, Option<D>>::empty());
            assert(r.model() =~= CacheModel::<D>::empty());
        }
        r
    }

    /// Resolves a query to an id from the cache's own tables alone.
    fn find_id(&self, query: &Query) -> (r: Option<u64>)
        ensures
            r == self.model().resolve(query@),
    {
        match query {
            Query::ById(i) => Some(*i),
            other => match self.query.get(other) {
                Some(i) => Some(*i),
                None => None,
            },
        }
    }

    /// Writes a record into the primary cache under its id, and points
    /// every query it indexes under at that id.
    fn insert_data(&mut self, d: &Data<D>)
        ensures
            final(self).model() == old(self).model().store(d@),
            final(self).exec_state() == old(self).exec_state(),
    {
        let qs = d.get().create_queries();
        let id = self.executor.get_id(d.get());
        let ghost qks = d@.queries_spec();
        let n = qs.len();
        proof {
            assert(qks.take(0) =~= Seq::<QueryKey>::empty());
            assert(CacheModel::<D>::index_with(old(self).model().index, qks.take(0), id)
                =~= old(self).model().index);
        }
        let mut i: usize = 0;
        while i < n
            invariant
                n == qs@.len(),
                0 <= i <= n,
                qks == qs@.map_values(|q: Query| q@),
                id == d@.id_spec(),
                self.query@ == CacheModel::<D>::index_with(
                    old(self).model().index,
                    qks.take(i as int),
                    id,
                ),
                self.data@ == old(self).data@,
                self.query_cache@ == old(self).query_cache@,
                self.fetches == old(self).fetches,
                self.executor == old(self).executor,
            decreases n - i,
        {
            let q = (&qs[i]).clone();
            proof {
                assert(q@ == qks[i as int]);
            }
            self.query.insert(q, id);
            proof {
                assert(qks.take(i + 1).contains(qks[i as int])) by {
                    assert(qks.take(i + 1)[i as int] == qks[i as int]);
                }
                assert forall|x: QueryKey| qks.take(i + 1).contains(x) implies (qks.take(
                    i as int,
                ).contains(x) || x == qks[i as int]) by {
                    let j = choose|j: int| 0 <= j < i + 1 && #[trigger] qks.take(i + 1)[j] == x;
                    if j < i {
                        assert(qks.take(i as int)[j] == x);
                    }
                }
                assert forall|x: QueryKey| qks.take(i as int).contains(x) implies qks.take(
                    i + 1,
                ).contains(x) by {
                    let j = choose|j: int| 0 <= j < i && #[trigger] qks.take(i as int)[j] == x;
                    assert(qks.take(i + 1)[j] == x);
                }
                assert(CacheModel::<D>::index_with(old(self).model().index, qks.take(i as int), id)
                    .insert(qks[i as int], id) =~= CacheModel::<D>::index_with(
                    old(self).model().index,
                    qks.take(i + 1),
                    id,
                ));
            }
            i = i + 1;
        }
        proof {
            assert(qks.take(n as int) =~= qks);
        }
        self.data.insert(id, d.clone());
        proof {
            assert(records_of(self.data@) =~= records_of(old(self).data@).insert(d@.id_spec(), d@));
            assert(self.model() =~= old(self).model().store(d@));
        }
    }

    /// Evicts the records under the given ids from the primary cache,
    /// leaving the index, the coalescing table and the executor untouched.
    pub fn evict_ids(&mut self, ids: &Vec<u64>)
        ensures
            final(self).model() == old(self).model().evicted(ids@),
            final(self).exec_state() == old(self).exec_state(),
    {
        let ghost s = ids@;
        let n = ids.len();
        proof {
            assert(s.take(0).to_set() =~= Set::<u64>::empty());
            assert(records_of(self.data@).remove_keys(s.take(0).to_set()) =~= records_of(
                self.data@,
            ));
        }
        let mut i: usize = 0;
        while i < n
            invariant
                n == s.len(),
                s == ids@,
                0 <= i <= n,
                records_of(self.data@) == records_of(old(self).data@).remove_keys(
                    s.take(i as int).to_set(),
                ),
                self.query@ == old(self).query@,
                self.query_cache@ == old(self).query_cache@,
                self.fetches == old(self).fetches,
                self.executor == old(self).executor,
            decreases n - i,
        {
            let _ = self.data.remove(&ids[i]);
            proof {
                assert(records_of(self.data@) =~= records_of(old(self).data@).remove_keys(
                    s.take(i as int).to_set(),
                ).remove(s[i as int]));
                assert(s.take(i + 1).to_set() =~= s.take(i as int).to_set().insert(s[i as int]))
                    by {
                    assert(s.take(i + 1)[i as int] == s[i as int]);
                    assert forall|x: u64| s.take(i + 1).contains(x) implies (s.take(
                        i as int,
                    ).contains(x) || x == s[i as int]) by {
                        let j = choose|j: int| 0 <= j < i + 1 && #[trigger] s.take(i + 1)[j] == x;
                        if j < i {
                            assert(s.take(i as int)[j] == x);
                        }
                    }
                    assert forall|x: u64| s.take(i as int).contains(x) implies s.take(
                        i + 1,
                    ).contains(x) by {
                        let j = choose|j: int| 0 <= j < i && #[trigger] s.take(i as int)[j] == x;
                        assert(s.take(i + 1)[j] == x);
                    }
                }
                assert(records_of(old(self).data@).remove_keys(s.take(i as int).to_set()).remove(
                    s[i as int],
                ) =~= records_of(old(self).data@).remove_keys(s.take(i + 1).to_set()));
            }
            i = i + 1;
        }
        proof {
            assert(s.take(n as int) =~= s);
            assert(self.model() =~= old(self).model().evicted(s));
        }
    }

    /// Resolves each id through the by-id path of `find_one`, in order: an
    /// id the primary cache holds is served from it at no backing cost, a
    /// remembered still-cached record is re-served, and a cold id costs one
    /// backing call. This is the read side of `find_all`, taking the
    /// executor's id listing as an argument; on success the returned
    /// records follow the ids one to one, witnessed by a resolution trace.
    #[verifier::rlimit(30)]
    pub fn resolve_ids(&mut self, ids: &Vec<u64>) -> (r: Result<
        Vec<Data<D>>,
        CacheError<E::Error>,
    >)
        ensures
            old(self).model().primary.dom().subset_of(final(self).model().primary.dom()),
            old(self).model().fetches <= final(self).model().fetches,
            final(self).model().fetches <= old(self).model().fetches + ids@.len(),
            old(self).model().coherent() ==> final(self).model().coherent(),
            r matches Ok(v) ==> v@.len() == ids@.len(),
            r matches Ok(v) ==> resolved_all(old(self).model(), ids@, v@, final(self).model()),
            r matches Ok(v) ==> (old(self).model().coherent() ==> forall|j: int|
                0 <= j < v@.len() ==> final(self).model().primary.contains_key(
                    #[trigger] (v@[j]@.id_spec()),
                )),
    {
        let mut values: Vec<Data<D>> = Vec::new();
        let ghost mut ms: Seq<CacheModel<D>> = seq![self.model()];
        let n = ids.len();
        let mut i: usize = 0;
        while i < n
            invariant
                n == ids@.len(),
                0 <= i <= n,
                values@.len() == i,
                ms.len() == i + 1,
                ms[0] == old(self).model(),
                ms[i as int] == self.model(),
                forall|j: int|
                    0 <= j < i ==> #[trigger] resolved_by_id(
                        ms[j],
                        ids@[j],
                        values@[j]@,
                        ms[j + 1],
                    ),
                old(self).model().primary.dom().subset_of(self.model().primary.dom()),
                old(self).model().fetches <= self.model().fetches,
                self.model().fetches <= old(self).model().fetches + i,
                old(self).model().coherent() ==> self.model().coherent(),
                old(self).model().coherent() ==> forall|j: int|
                    0 <= j < i ==> self.model().primary.contains_key(
                        #[trigger] (values@[j]@.id_spec()),
                    ),
            decreases n - i,
        {
            let ghost pre = self.model();
            let d = match self.find_one(&Query::ById(ids[i])) {
                Ok(d) => d,
                Err(e) => {
                    return Err(e);
                },
            };
            proof {
                assert(resolved_by_id(pre, ids@[i as int], d@, self.model()));
                if pre.coherent() {
                    assert(self.model().coherent());
                    assert(self.model().primary.contains_key(d@.id_spec()));
                }
                assert(pre.primary.dom().subset_of(self.model().primary.dom()));
                ms = ms.push(self.model());
            }
            values.push(d);
            i = i + 1;
        }
        proof {
            let ghost ds = views_of(values@);
            assert forall|j: int| 0 <= j < ids@.len() implies #[trigger] resolved_by_id(
                ms[j],
                ids@[j],
                ds[j],
                ms[j + 1],
            ) by {
                assert(ds[j] == values@[j]@);
                assert(resolved_by_id(ms[j], ids@[j], values@[j]@, ms[j + 1]));
            }
            assert(by_id_trace(ms, ids@, ds));
            assert(resolved_all(old(self).model(), ids@, values@, self.model()));
        }
        Ok(values)
    }
}

/// The cache capability: reads by id or by query with read-through,
/// coalesced loading, writes, and invalidation. The contracts say how each
/// operation moves the observable [`CacheModel`]; `fetches` counts every
/// call that goes to the backing store, so a clause that keeps `fetches`
/// unchanged promises that the backing store was not consulted.
pub trait DataStorage<E: DataQueryExecutor<D>, D: DataMarker>: Sized {
    /// The cache's observable state.
    spec fn model(&self) -> CacheModel<D>;

    /// The executor's state.
    spec fn exec_state(&self) -> E;

    /// Resolves a query to the one record it matches. A resolved id held in
    /// the primary cache is returned without consulting the backing store; a
    /// remembered load outcome that is still current — a miss, or a record
    /// whose id the primary cache still holds — is served without consulting
    /// it either. Any other query, a stale remembered record included, costs
    /// one backing-store call, whose outcome is remembered. A remembered
    /// miss is a `NotFound` error here.
    fn find_one(&mut self, query: &Query) -> (r: Result<Data<D>, CacheError<E::Error>>)
        ensures
            old(self).model().hit(query@) ==> (r matches Ok(d) && d@ == old(self).model()
                .hit_record(query@) && final(self).model() == old(self).model() && final(self).exec_state() == old(self).exec_state()),
            (!old(self).model().hit(query@) && old(self).model().remembered(query@)) ==> ({
                &&& final(self).model().fetches == old(self).model().fetches
                &&& final(self).exec_state() == old(self).exec_state()
                &&& match old(self).model().pending[query@] {
                    Some(rec) => (r matches Ok(d) && d@ == rec) && final(self).model() == old(self).model().store(rec),
                    None => (r matches Err(CacheError::NotFound)) && final(self).model() == old(self).model(),
                }
            }),
            (!old(self).model().hit(query@) && !old(self).model().remembered(query@))
                ==> match r {
                Ok(d) => final(self).model() == old(self).model().loaded(query@, d@),
                Err(e) => (e matches CacheError::Backing(_)) && final(self).model() == old(self).model().bumped(),
            },
    ;

    /// Resolves a query to its record, or to absence. Serving order is as
    /// in `find_one`, the staleness rule included; a remembered or fresh
    /// miss is `Ok(None)`, never an error.
    fn find_optional(&mut self, query: &Query) -> (r: Result<
        Option<Data<D>>,
        CacheError<E::Error>,
    >)
        ensures
            old(self).model().hit(query@) ==> (r matches Ok(Some(d)) && d@ == old(self).model()
                .hit_record(query@) && final(self).model() == old(self).model() && final(self).exec_state() == old(self).exec_state()),
            (!old(self).model().hit(query@) && old(self).model().remembered(query@)) ==> ({
                &&& final(self).model().fetches == old(self).model().fetches
                &&& final(self).exec_state() == old(self).exec_state()
                &&& match old(self).model().pending[query@] {
                    Some(rec) => (r matches Ok(Some(d)) && d@ == rec) && final(self).model() == old(self).model().store(rec),
                    None => (r matches Ok(None)) && final(self).model() == old(self).model(),
                }
            }),
            (!old(self).model().hit(query@) && !old(self).model().remembered(query@))
                ==> match r {
                Ok(Some(d)) => final(self).model() == old(self).model().loaded(query@, d@),
                Ok(None) => final(self).model() == old(self).model().noted_miss(query@),
                Err(e) => (e matches CacheError::Backing(_)) && final(self).model() == old(self).model().bumped(),
            },
    ;

    /// Fetches the ids of all records matching the optional filter — one
    /// backing-store call — then resolves each id through the by-id path of
    /// `find_one`, so already-cached records cost no further call. The
    /// returned records follow the executor's id listing one to one and in
    /// its order, witnessed by a by-id resolution trace over that listing.
    fn find_all(&mut self, query: Option<&Query>) -> (r: Result<
        Vec<Data<D>>,
        CacheError<E::Error>,
    >)
        ensures
            old(self).model().primary.dom().subset_of(final(self).model().primary.dom()),
            old(self).model().fetches < final(self).model().fetches,
            r matches Ok(v) ==> final(self).model().fetches <= old(self).model().fetches + 1
                + v@.len(),
            r matches Ok(v) ==> listed_and_resolved(
                old(self).model().bumped(),
                v@,
                final(self).model(),
            ),
            r matches Ok(v) ==> (old(self).model().coherent() ==> forall|j: int|
                0 <= j < v@.len() ==> final(self).model().primary.contains_key(
                    #[trigger] (v@[j]@.id_spec()),
                )),
    ;

    /// Persists a record through the executor — one backing-store call —
    /// and on success populates the cache tables as a successful load
    /// would. Failure leaves the cache state unchanged.
    fn insert(&mut self, data: D) -> (r: Result<(), E::Error>)
        ensures
            r matches Ok(_) ==> final(self).model() == old(self).model().store(data).bumped(),
            r matches Err(_) ==> final(self).model() == old(self).model().bumped(),
    ;

    /// Drops the index and coalescing entries for the query, deletes the
    /// matching rows through the executor — one backing-store call — and
    /// evicts every id the executor reports deleted. Index entries of other
    /// queries that pointed at an evicted id are left to self-correct on
    /// their next miss.
    fn delete(&mut self, query: &Query) -> (r: Result<(), E::Error>)
        ensures
            r matches Ok(_) ==> exists|ids: Seq<u64>|
                final(self).model() == old(self).model().dropped(query@).evicted(ids).bumped(),
            r matches Err(_) ==> final(self).model() == old(self).model().dropped(query@).bumped(),
    ;

    /// Drops the index and coalescing entries for the query, re-resolves the
    /// ids currently matching it through the executor — one backing-store
    /// call — and evicts them, for when the backing data changed out of
    /// band. Nothing is deleted from the backing store.
    fn invalidate(&mut self, query: &Query) -> (r: Result<(), E::Error>)
        ensures
            r matches Ok(_) ==> exists|ids: Seq<u64>|
                final(self).model() == old(self).model().dropped(query@).evicted(ids).bumped(),
            r matches Err(_) ==> final(self).model() == old(self).model().dropped(query@).bumped(),
    ;

    /// The executor this cache loads through.
    fn get_executor(&self) -> (r: &E)
        ensures
            *r == self.exec_state(),
    ;
}

impl<E: DataQueryExecutor<D>, D: DataMarker> DataStorage<E, D> for DataCache<E, D> {
    closed spec fn model(&self) -> CacheModel<D> {
        CacheModel {
            primary: records_of(self.data@),
            index: self.query@,
            pending: outcomes_of(self.query_cache@),
            fetches: self.fetches@,
        }
    }

    closed spec fn exec_state(&self) -> E {
        self.executor
    }

    fn find_one(&mut self, query: &Query) -> (r: Result<Data<D>, CacheError<E::Error>>) {
        match self.find_id(query) {
            Some(id) => {
                let hit = match self.data.get(&id) {
                    Some(d) => Some(d.clone()),
                    None => None,
                };
                if let Some(d) = hit {
                    return Ok(d);
                }
            },
            None => {},
        }
        let cached: Option<Option<Data<D>>> = match self.query_cache.get(query) {
            Some(o) => Some(
                match o {
                    Some(d) => Some(d.clone()),
                    None => None,
                },
            ),
            None => None,
        };
        // a remembered record is trusted only while the primary cache still
        // holds its id; a stale one falls through to a fresh load
        let current: Option<Option<Data<D>>> = match cached {
            Some(Some(d)) => {
                let id = self.executor.get_id(d.get());
                if self.data.get(&id).is_some() {
                    Some(Some(d))
                } else {
                    None
                }
            },
            other => other,
        };
        match current {
            Some(Some(d)) => {
                self.insert_data(&d);
                Ok(d)
            },
            Some(None) => Err(CacheError::NotFound),
            None => {
                self.fetches = Ghost(self.fetches@ + 1);
                match self.executor.find_one(query) {
                    Ok(rec) => {
                        let d = Data::new(rec);
                        self.query_cache.insert(query.clone(), Some(d.clone()));
                        proof {
                            assert(outcomes_of(self.query_cache@) =~= outcomes_of(
                                old(self).query_cache@,
                            ).insert(query@, Some(d@)));
                        }
                        self.insert_data(&d);
                        proof {
                            assert(final(self).model() =~= old(self).model().loaded(query@, d@));
                        }
                        Ok(d)
                    },
                    Err(e) => {
                        proof {
                            assert(final(self).model() =~= old(self).model().bumped());
                        }
                        Err(CacheError::Backing(Arc::new(e)))
                    },
                }
            },
        }
    }

    fn find_optional(&mut self, query: &Query) -> (r: Result<
        Option<Data<D>>,
        CacheError<E::Error>,
    >) {
        match self.find_id(query) {
            Some(id) => {
                let hit = match self.data.get(&id) {
                    Some(d) => Some(d.clone()),
                    None => None,
                };
                if let Some(d) = hit {
                    return Ok(Some(d));
                }
            },
            None => {},
        }
        let cached: Option<Option<Data<D>>> = match self.query_cache.get(query) {
            Some(o) => Some(
                match o {
                    Some(d) => Some(d.clone()),
                    None => None,
                },
            ),
            None => None,
        };
        // a remembered record is trusted only while the primary cache still
        // holds its id; a stale one falls through to a fresh load
        let current: Option<Option<Data<D>>> = match cached {
            Some(Some(d)) => {
                let id = self.executor.get_id(d.get());
                if self.data.get(&id).is_some() {
                    Some(Some(d))
                } else {
                    None
                }
            },
            other => other,
        };
        match current {
            Some(Some(d)) => {
                self.insert_data(&d);
                Ok(Some(d))
            },
            Some(None) => Ok(None),
            None => {
                self.fetches = Ghost(self.fetches@ + 1);
                match self.executor.find_optional(query) {
                    Ok(Some(rec)) => {
                        let d = Data::new(rec);
                        self.query_cache.insert(query.clone(), Some(d.clone()));
                        proof {
                            assert(outcomes_of(self.query_cache@) =~= outcomes_of(
                                old(self).query_cache@,
                            ).insert(query@, Some(d@)));
                        }
                        self.insert_data(&d);
                        proof {
                            assert(final(self).model() =~= old(self).model().loaded(query@, d@));
                        }
                        Ok(Some(d))
                    },
                    Ok(None) => {
                        self.query_cache.insert(query.clone(), None);
                        proof {
                            assert(outcomes_of(self.query_cache@) =~= outcomes_of(
                                old(self).query_cache@,
                            ).insert(query@, None));
                            assert(final(self).model() =~= old(self).model().noted_miss(query@));
                        }
                        Ok(None)
                    },
                    Err(e) => {
                        proof {
                            assert(final(self).model() =~= old(self).model().bumped());
                        }
                        Err(CacheError::Backing(Arc::new(e)))
                    },
                }
            },
        }
    }

    fn find_all(&mut self, query: Option<&Query>) -> (r: Result<
        Vec<Data<D>>,
        CacheError<E::Error>,
    >) {
        self.fetches = Ghost(self.fetches@ + 1);
        let ids = match self.executor.find_all_ids(query) {
            Ok(ids) => ids,
            Err(e) => {
                proof {
                    assert(self.model().primary =~= old(self).model().primary);
                }
                return Err(CacheError::Backing(Arc::new(e)));
            },
        };
        proof {
            assert(self.model() =~= old(self).model().bumped());
        }
        let ghost mid = self.model();
        match self.resolve_ids(&ids) {
            Ok(values) => {
                proof {
                    assert(resolved_all(mid, ids@, values@, self.model()));
                    assert(listed_and_resolved(mid, values@, self.model()));
                }
                Ok(values)
            },
            Err(e) => Err(e),
        }
    }

    fn insert(&mut self, data: D) -> (r: Result<(), E::Error>) {
        let d = Data::new(data);
        self.fetches = Ghost(self.fetches@ + 1);
        match self.executor.create(d.clone()) {
            Ok(_) => {
                self.insert_data(&d);
                proof {
                    assert(final(self).model() =~= old(self).model().store(data).bumped());
                }
                Ok(())
            },
            Err(e) => {
                proof {
                    assert(final(self).model() =~= old(self).model().bumped());
                }
                Err(e)
            },
        }
    }

    fn delete(&mut self, query: &Query) -> (r: Result<(), E::Error>) {
        let _ = self.query.remove(query);
        let _ = self.query_cache.remove(query);
        proof {
            assert(outcomes_of(self.query_cache@) =~= outcomes_of(old(self).query_cache@).remove(
                query@,
            ));
        }
        self.fetches = Ghost(self.fetches@ + 1);
        match self.executor.delete(query) {
            Ok(ids) => {
                self.evict_ids(&ids);
                proof {
                    assert(self.model() =~= old(self).model().dropped(query@).evicted(
                        ids@,
                    ).bumped());
                    assert(exists|s: Seq<u64>|
                        self.model() == old(self).model().dropped(query@).evicted(s).bumped());
                }
                Ok(())
            },
            Err(e) => {
                proof {
                    assert(final(self).model() =~= old(self).model().dropped(query@).bumped());
                }
                Err(e)
            },
        }
    }

    fn invalidate(&mut self, query: &Query) -> (r: Result<(), E::Error>) {
        let _ = self.query.remove(query);
        let _ = self.query_cache.remove(query);
        proof {
            assert(outcomes_of(self.query_cache@) =~= outcomes_of(old(self).query_cache@).remove(
                query@,
            ));
        }
        self.fetches = Ghost(self.fetches@ + 1);
        match self.executor.find_all_ids(Some(query)) {
            Ok(ids) => {
                self.evict_ids(&ids);
                proof {
                    assert(self.model() =~= old(self).model().dropped(query@).evicted(
                        ids@,
                    ).bumped());
                    assert(exists|s: Seq<u64>|
                        self.model() == old(self).model().dropped(query@).evicted(s).bumped());
                }
                Ok(())
            },
            Err(e) => {
                proof {
                    assert(final(self).model() =~= old(self).model().dropped(query@).bumped());
                }
                Err(e)
            },
        }
    }

    fn get_executor(&self) -> (r: &E) {
        &self.executor
    }
}

} // verus!
