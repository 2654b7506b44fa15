use datacache::CacheError;
use datacache::Data;
use datacache::DataCache;
use datacache::DataMarker;
use datacache::DataQueryExecutor;
use datacache::DataRef;
use datacache::DataStorage;
use datacache::ErrorHandler;
use datacache::Query;
use datacache::QueryKey;
use vstd::prelude::nat;
use vstd::prelude::Seq;

const SLUG_FIELD: u64 = 1;

#[derive(Debug, PartialEq, Eq, Clone)]
struct TestData {
    id: u64,
    slug: String,
}

impl DataMarker for TestData {
    // the two specification items are never run; stubs satisfy the compiler
    fn id_spec(&self) -> u64 {
        unreachable!()
    }

    fn queries_spec(&self) -> Seq<QueryKey> {
        unreachable!()
    }

    fn create_queries(&self) -> Vec<Query> {
        vec![Query::ById(self.id), Query::ByText(SLUG_FIELD, self.slug.clone())]
    }
}

/// An in-memory backing store that counts every call made to it.
struct MemExecutor {
    rows: Vec<TestData>,
    calls: u64,
    // how many of the next calls fail
    fail_next: u64,
}

impl MemExecutor {
    fn new(rows: Vec<TestData>) -> Self {
        MemExecutor { rows, calls: 0, fail_next: 0 }
    }

    fn failing(rows: Vec<TestData>, fail_next: u64) -> Self {
        MemExecutor { rows, calls: 0, fail_next }
    }

    fn failed(&mut self) -> bool {
        if self.fail_next > 0 {
            self.fail_next -= 1;
            true
        } else {
            false
        }
    }

    fn matches(row: &TestData, query: &Query) -> bool {
        match query {
            Query::ById(i) => row.id == *i,
            Query::ByInt(_, _) => false,
            Query::ByText(f, s) => *f == SLUG_FIELD && row.slug == *s,
        }
    }
}

impl DataQueryExecutor<TestData> for MemExecutor {
    type Error = String;

    fn get_id(&self, data: &TestData) -> u64 {
        data.id
    }

    fn find_one(&mut self, query: &Query) -> Result<TestData, String> {
        match self.find_optional(query)? {
            Some(row) => Ok(row),
            None => Err("no row".into()),
        }
    }

    fn find_all_ids(&mut self, query: Option<&Query>) -> Result<Vec<u64>, String> {
        self.calls += 1;
        if self.failed() {
            return Err("backing store down".into());
        }
        Ok(self
            .rows
            .iter()
            .filter(|r| match query {
                Some(q) => Self::matches(r, q),
                None => true,
            })
            .map(|r| r.id)
            .collect())
    }

    fn find_optional(&mut self, query: &Query) -> Result<Option<TestData>, String> {
        self.calls += 1;
        if self.failed() {
            return Err("backing store down".into());
        }
        Ok(self.rows.iter().find(|r| Self::matches(r, query)).cloned())
    }

    fn create(&mut self, data: Data<TestData>) -> Result<(), String> {
        self.calls += 1;
        if self.failed() {
            return Err("backing store down".into());
        }
        self.rows.push(data.get().clone());
        Ok(())
    }

    fn update(&mut self, _data: Data<TestData>) -> Result<(), String> {
        self.calls += 1;
        Ok(())
    }

    fn delete(&mut self, query: &Query) -> Result<Vec<u64>, String> {
        self.calls += 1;
        if self.failed() {
            return Err("backing store down".into());
        }
        let removed: Vec<u64> =
            self.rows.iter().filter(|r| Self::matches(r, query)).map(|r| r.id).collect();
        self.rows.retain(|r| !Self::matches(r, query));
        Ok(removed)
    }
}

type Storage = DataCache<MemExecutor, TestData>;

fn slug(s: &str) -> Query {
    Query::ByText(SLUG_FIELD, s.into())
}

#[test]
fn insert_then_read_without_backing_calls() {
    // Insert {id: 7, slug: "test"}; both the by-id and the by-slug reads
    // are then served from the cache without a further backing call.
    let mut storage = Storage::new(MemExecutor::new(vec![]));
    storage.insert(TestData { id: 7, slug: "test".into() }).unwrap();
    assert_eq!(storage.get_executor().calls, 1);

    let by_id = storage.find_one(&Query::ById(7)).unwrap();
    assert_eq!(by_id.get(), &TestData { id: 7, slug: "test".into() });
    assert_eq!(storage.get_executor().calls, 1);

    let by_slug = storage.find_one(&slug("test")).unwrap();
    assert_eq!(by_slug.get(), &TestData { id: 7, slug: "test".into() });
    assert_eq!(storage.get_executor().calls, 1);
}

#[test]
fn delete_unindexes_and_evicts() {
    // After delete(ById(7)), neither the by-slug index entry nor the
    // primary entry serves a hit: the following optional read goes back to
    // the backing store and reports absence.
    let mut storage = Storage::new(MemExecutor::new(vec![]));
    storage.insert(TestData { id: 7, slug: "test".into() }).unwrap();
    storage.delete(&Query::ById(7)).unwrap();
    assert_eq!(storage.get_executor().calls, 2);

    let gone = storage.find_optional(&slug("test")).unwrap();
    assert_eq!(gone, None);
    assert_eq!(storage.get_executor().calls, 3);
}

#[test]
fn repeated_find_one_asks_the_store_once() {
    // Two reads for the same cold query: exactly one backing call, and
    // both callers see the same record.
    let rows = vec![TestData { id: 3, slug: "three".into() }];
    let mut storage = Storage::new(MemExecutor::new(rows));
    let first = storage.find_one(&slug("three")).unwrap();
    let second = storage.find_one(&slug("three")).unwrap();
    assert_eq!(first, second);
    assert_eq!(storage.get_executor().calls, 1);
}

#[test]
fn invalidate_on_empty_cache_is_a_noop() {
    // Invalidating a query with no cached entry succeeds and leaves every
    // following read behaving as on a fresh cache.
    let rows = vec![TestData { id: 3, slug: "three".into() }];
    let mut storage = Storage::new(MemExecutor::new(rows));
    storage.invalidate(&slug("absent")).unwrap();
    assert_eq!(storage.get_executor().calls, 1);
    let found = storage.find_one(&Query::ById(3)).unwrap();
    assert_eq!(found.get().slug, "three");
}

#[test]
fn invalidate_evicts_matching_ids() {
    // A record cached by id is evicted when a query matching it is
    // invalidated; the next read consults the backing store again.
    let rows = vec![TestData { id: 3, slug: "three".into() }];
    let mut storage = Storage::new(MemExecutor::new(rows));
    storage.find_one(&slug("three")).unwrap();
    assert_eq!(storage.get_executor().calls, 1);
    storage.invalidate(&slug("three")).unwrap();
    assert_eq!(storage.get_executor().calls, 2);
    // neither the invalidated query nor the by-id query of the affected id
    // is served from the cache now
    storage.find_one(&Query::ById(3)).unwrap();
    assert_eq!(storage.get_executor().calls, 3);
    storage.find_one(&slug("three")).unwrap();
    assert_eq!(storage.get_executor().calls, 3);
}

#[test]
fn deleted_record_is_not_served_from_remembered_loads() {
    // Load id 7 through its slug: the outcome is remembered under that
    // query. Deleting by id evicts the record, which makes the remembered
    // outcome stale, so the next read by slug must go back to the backing
    // store — and finds nothing there.
    let rows = vec![TestData { id: 7, slug: "seven".into() }];
    let mut storage = Storage::new(MemExecutor::new(rows));
    storage.find_one(&slug("seven")).unwrap();
    assert_eq!(storage.get_executor().calls, 1);
    storage.delete(&Query::ById(7)).unwrap();
    assert_eq!(storage.get_executor().calls, 2);
    let gone = storage.find_optional(&slug("seven")).unwrap();
    assert_eq!(gone, None);
    assert_eq!(storage.get_executor().calls, 3);
}

#[test]
fn remembered_miss_becomes_not_found() {
    // find_optional remembers a miss; find_one for the same query then
    // reports NotFound without a further backing call.
    let mut storage = Storage::new(MemExecutor::new(vec![]));
    assert_eq!(storage.find_optional(&slug("nothing")).unwrap(), None);
    assert_eq!(storage.get_executor().calls, 1);
    let err = storage.find_one(&slug("nothing"));
    assert!(matches!(err, Err(CacheError::NotFound)));
    assert_eq!(storage.get_executor().calls, 1);
}

#[test]
fn backing_errors_are_reported_and_not_remembered() {
    // A failing load surfaces the backing error; once the store recovers,
    // the same query is retried rather than served a cached failure.
    let rows = vec![TestData { id: 3, slug: "three".into() }];
    let mut storage = Storage::new(MemExecutor::failing(rows, 1));
    let err = storage.find_one(&slug("three"));
    assert!(matches!(err, Err(CacheError::Backing(_))));
    let found = storage.find_one(&slug("three")).unwrap();
    assert_eq!(found.get().id, 3);
    assert_eq!(storage.get_executor().calls, 2);
}

#[test]
fn find_all_resolves_each_id_once() {
    let rows = vec![
        TestData { id: 1, slug: "one".into() },
        TestData { id: 2, slug: "two".into() },
    ];
    let mut storage = Storage::new(MemExecutor::new(rows));
    let all = storage.find_all(None).unwrap();
    assert_eq!(all.len(), 2);
    assert_eq!(all[0].get().id, 1);
    assert_eq!(all[1].get().id, 2);
    // one id listing and one load per record
    assert_eq!(storage.get_executor().calls, 3);
    // a second listing reuses the cached records
    let again = storage.find_all(None).unwrap();
    assert_eq!(again.len(), 2);
    assert_eq!(storage.get_executor().calls, 4);
}

#[test]
fn failed_insert_leaves_cache_unchanged() {
    let mut storage = Storage::new(MemExecutor::failing(vec![], 1));
    let err = storage.insert(TestData { id: 7, slug: "test".into() });
    assert!(err.is_err());
    // nothing was cached: the read goes to the backing store and misses
    assert_eq!(storage.find_optional(&Query::ById(7)).unwrap(), None);
    assert_eq!(storage.get_executor().calls, 2);
}

struct CountingHandler {
    count: u64,
}

impl<X> ErrorHandler<X> for CountingHandler {
    // the specification item is never run; a stub satisfies the compiler
    fn handled(&self) -> nat {
        unreachable!()
    }

    fn handle(&mut self, _err: &X) {
        self.count += 1;
    }
}

#[test]
fn lookup_absorbs_errors_once() {
    // A failed load reached through the lookup capability is absence, and
    // the injected handler sees the failure exactly once.
    let rows = vec![TestData { id: 3, slug: "three".into() }];
    let mut storage = Storage::new(MemExecutor::failing(rows, 1));
    let mut handler = CountingHandler { count: 0 };
    let reference: DataRef<TestData> = DataRef::new(slug("three"));
    let got = datacache::lookup_or_absent(&mut storage, &reference, &mut handler);
    assert_eq!(got, None);
    assert_eq!(handler.count, 1);

    // a successful lookup does not touch the handler
    let got = datacache::lookup_or_absent(&mut storage, &reference, &mut handler);
    assert_eq!(got.unwrap().get().id, 3);
    assert_eq!(handler.count, 1);
}
