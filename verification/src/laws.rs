//! What holds of every cache state: the laws behind the cache's contracts,
//! stated over [`CacheModel`] transitions.

use crate::query::QueryKey;
use crate::record::DataMarker;
use crate::storage::by_id_trace;
use crate::storage::resolved_by_id;
use crate::storage::CacheModel;
use vstd::prelude::*;

verus! {

/// Index consistency: after a record is stored — by a successful load or
/// insert — every query it indexes under resolves to it as a primary-cache
/// hit, so `find_one` returns it with the backing store left alone (on a
/// hit, `find_one`'s contract keeps `fetches` unchanged). A by-id query
/// among a record's index entries must name the record's own id.
pub proof fn law_index_consistency<D: DataMarker>(m: CacheModel<D>, d: D, qk: QueryKey)
    requires
        d.queries_spec().contains(qk),
        qk matches QueryKey::ById(i) ==> i == d.id_spec(),
    ensures
        m.store(d).hit(qk),
        m.store(d).hit_record(qk) == d,
{
}

/// Coalescing, as one sequential caller observes it: after a fresh load of
/// `q` found record `d`, the outcome for `q` is remembered and still
/// current — the record is cached under its id — so a repeated
/// `find_one(q)` or `find_optional(q)` is served from what is remembered:
/// their contracts keep `fetches` unchanged whenever the outcome of `q` is
/// remembered and current.
pub proof fn law_coalescing<D: DataMarker>(m: CacheModel<D>, qk: QueryKey, d: D)
    ensures
        m.loaded(qk, d).pending.contains_key(qk),
        m.loaded(qk, d).pending[qk] == Some(d),
        m.loaded(qk, d).primary.contains_key(d.id_spec()),
        m.loaded(qk, d).primary[d.id_spec()] == d,
        m.loaded(qk, d).remembered(qk),
{
}

/// Invalidation: once the entries for `q` are dropped and the affected ids
/// evicted — as `delete(q)` and `invalidate(q)` do — neither `q` nor the
/// by-id query of any affected id is served from the cache: the next read
/// must consult the backing store. A by-id `q` counts as invalidated when
/// its id is among the affected ones.
pub proof fn law_invalidation<D: DataMarker>(m: CacheModel<D>, qk: QueryKey, ids: Seq<u64>)
    requires
        qk matches QueryKey::ById(i) ==> ids.contains(i),
    ensures
        !m.dropped(qk).evicted(ids).bumped().hit(qk),
        !m.dropped(qk).evicted(ids).bumped().pending.contains_key(qk),
        forall|i: u64|
            ids.contains(i) ==> !m.dropped(qk).evicted(ids).bumped().hit(QueryKey::ById(i)),
{
}

/// Idempotence: invalidating a query with no cached entry is a no-op —
/// when nothing is indexed or remembered under `q` and no affected id is
/// cached, dropping and evicting change nothing; only the backing-store
/// call is counted.
pub proof fn law_idempotence<D: DataMarker>(m: CacheModel<D>, qk: QueryKey, ids: Seq<u64>)
    requires
        !m.index.contains_key(qk),
        !m.pending.contains_key(qk),
        forall|i: u64| ids.contains(i) ==> !m.primary.contains_key(i),
    ensures
        m.dropped(qk).evicted(ids).bumped() == m.bumped(),
{
    assert(m.index.remove(qk) =~= m.index);
    assert(m.pending.remove(qk) =~= m.pending);
    assert(m.primary.remove_keys(ids.to_set()) =~= m.primary);
    assert(m.dropped(qk).evicted(ids).bumped() =~= m.bumped());
}

proof fn trace_prefix_cached<D: DataMarker>(
    ms: Seq<CacheModel<D>>,
    ids: Seq<u64>,
    ds: Seq<D>,
    j: int,
)
    requires
        by_id_trace(ms, ids, ds),
        forall|x: int| 0 <= x < ids.len() ==> ms[0].primary.contains_key(#[trigger] ids[x]),
        0 <= j <= ids.len(),
    ensures
        ms[j] == ms[0],
    decreases j,
{
    if j > 0 {
        trace_prefix_cached(ms, ids, ds, j - 1);
        let i = j - 1;
        assert(resolved_by_id(ms[i], ids[i], ds[i], ms[i + 1]));
        assert(ms[i].hit(QueryKey::ById(ids[i])));
    }
}

/// Reads through `find_all` cost nothing for ids the cache already holds:
/// a by-id resolution trace over ids that are all cached at the start
/// leaves the state — the backing-store call count included — unchanged,
/// and returns exactly the cached records, in the ids' order.
pub proof fn law_find_all_cached<D: DataMarker>(ms: Seq<CacheModel<D>>, ids: Seq<u64>, ds: Seq<D>)
    requires
        by_id_trace(ms, ids, ds),
        forall|x: int| 0 <= x < ids.len() ==> ms[0].primary.contains_key(#[trigger] ids[x]),
    ensures
        ms[ids.len() as int] == ms[0],
        forall|j: int| 0 <= j < ids.len() ==> ds[j] == ms[0].primary[#[trigger] ids[j]],
{
    trace_prefix_cached(ms, ids, ds, ids.len() as int);
    assert forall|j: int| 0 <= j < ids.len() implies ds[j] == ms[0].primary[#[trigger] ids[j]] by {
        trace_prefix_cached(ms, ids, ds, j);
        assert(resolved_by_id(ms[j], ids[j], ds[j], ms[j + 1]));
        assert(ms[j].hit(QueryKey::ById(ids[j])));
    }
}

/// Coherence: a fresh cache is coherent — every cached record stands under
/// its own id — and every operation's transition keeps it so.
pub proof fn law_coherence<D: DataMarker>(m: CacheModel<D>, d: D, qk: QueryKey, ids: Seq<u64>)
    requires
        m.coherent(),
    ensures
        CacheModel::<D>::empty().coherent(),
        m.store(d).coherent(),
        m.loaded(qk, d).coherent(),
        m.noted_miss(qk).coherent(),
        m.bumped().coherent(),
        m.dropped(qk).coherent(),
        m.evicted(ids).coherent(),
{
}

} // verus!
