use std::convert::Infallible;

use datacache::Data;
use datacache::DataCache;
use datacache::DataMarker;
use datacache::DataQueryExecutor;
use datacache::DataRef;
use datacache::ErrorHandler;
use datacache::LookupRef;
use datacache::Query;
use datacache::StorageHandle;
use datacache::QueryKey;
use datacache::StorageManager;
use vstd::prelude::nat;
use vstd::prelude::Seq;

const MACRO_DATA_TAG: u64 = 1;
const OTHER_DATA_TAG: u64 = 2;
const MACRO_STORAGE_TAG: u64 = 11;
const OTHER_STORAGE_TAG: u64 = 12;
const SLUG_FIELD: u64 = 1;

#[derive(Debug, PartialEq, Eq)]
struct MacroData {
    id: u64,
    slug: String,
}

impl DataMarker for MacroData {
    // the two specification items are never run; stubs satisfy the compiler
    fn id_spec(&self) -> u64 {
        unreachable!()
    }

    fn queries_spec(&self) -> Seq<QueryKey> {
        unreachable!()
    }

    fn create_queries(&self) -> Vec<Query> {
        vec![Query::ById(self.id), Query::ByText(SLUG_FIELD, self.slug.clone())]
    }
}

#[derive(Debug, PartialEq, Eq)]
struct OtherData {
    id: u64,
}

impl DataMarker for OtherData {
    fn id_spec(&self) -> u64 {
        unreachable!()
    }

    fn queries_spec(&self) -> Seq<QueryKey> {
        unreachable!()
    }

    fn create_queries(&self) -> Vec<Query> {
        vec![Query::ById(self.id)]
    }
}

struct MacroExecutor;

impl DataQueryExecutor<MacroData> for MacroExecutor {
    type Error = Infallible;

    fn get_id(&self, data: &MacroData) -> u64 {
        data.id
    }

    fn find_one(&mut self, query: &Query) -> Result<MacroData, Infallible> {
        self.find_optional(query).map(|opt| opt.expect("Not found"))
    }

    fn find_all_ids(&mut self, _query: Option<&Query>) -> Result<Vec<u64>, Infallible> {
        unreachable!()
    }

    fn find_optional(&mut self, query: &Query) -> Result<Option<MacroData>, Infallible> {
        if let Query::ById(id) = query {
            if *id == 7 {
                Ok(Some(MacroData { id: 7, slug: "Test Data".into() }))
            } else {
                panic!("Only id 7 lookup");
            }
        } else {
            panic!("Slug lookup not tested")
        }
    }

    fn create(&mut self, _data: Data<MacroData>) -> Result<(), Infallible> {
        unreachable!()
    }

    fn update(&mut self, _data: Data<MacroData>) -> Result<(), Infallible> {
        unreachable!()
    }

    fn delete(&mut self, _query: &Query) -> Result<Vec<u64>, Infallible> {
        unreachable!()
    }
}

struct OtherExecutor;

impl DataQueryExecutor<OtherData> for OtherExecutor {
    type Error = Infallible;

    fn get_id(&self, data: &OtherData) -> u64 {
        data.id
    }

    fn find_one(&mut self, _query: &Query) -> Result<OtherData, Infallible> {
        unreachable!()
    }

    fn find_all_ids(&mut self, _query: Option<&Query>) -> Result<Vec<u64>, Infallible> {
        unreachable!()
    }

    fn find_optional(&mut self, _query: &Query) -> Result<Option<OtherData>, Infallible> {
        unreachable!()
    }

    fn create(&mut self, _data: Data<OtherData>) -> Result<(), Infallible> {
        unreachable!()
    }

    fn update(&mut self, _data: Data<OtherData>) -> Result<(), Infallible> {
        unreachable!()
    }

    fn delete(&mut self, _query: &Query) -> Result<Vec<u64>, Infallible> {
        unreachable!()
    }
}

type MacroDataStorage = DataCache<MacroExecutor, MacroData>;
type OtherDataStorage = DataCache<OtherExecutor, OtherData>;

enum Handle {
    MacroStore(MacroDataStorage),
    OtherStore(OtherDataStorage),
}

impl StorageHandle for Handle {
    // the two specification items are never run; stubs satisfy the compiler
    fn record_tag_spec(&self) -> u64 {
        unreachable!()
    }

    fn storage_tag_spec(&self) -> u64 {
        unreachable!()
    }

    fn record_tag(&self) -> u64 {
        match self {
            Handle::MacroStore(_) => MACRO_DATA_TAG,
            Handle::OtherStore(_) => OTHER_DATA_TAG,
        }
    }

    fn storage_tag(&self) -> u64 {
        match self {
            Handle::MacroStore(_) => MACRO_STORAGE_TAG,
            Handle::OtherStore(_) => OTHER_STORAGE_TAG,
        }
    }
}

struct CountingHandler {
    count: u64,
}

impl<X> ErrorHandler<X> for CountingHandler {
    // the specification item is never run; a stub satisfies the compiler
    fn handled(&self) -> nat {
        unreachable!()
    }

    fn handle(&mut self, _err: &X) {
        self.count += 1;
        println!("An error occurred");
    }
}

struct DataManager {
    inner: StorageManager<Handle>,
    errors: CountingHandler,
}

impl DataManager {
    fn new() -> Self {
        DataManager { inner: StorageManager::new(), errors: CountingHandler { count: 0 } }
    }

    fn register_storage(&mut self, handle: Handle) {
        self.inner.register_storage(handle);
    }

    fn get_for_data(&self, record_tag: u64) -> Option<&Handle> {
        self.inner.get_for_data(record_tag)
    }
}

impl LookupRef<MacroData> for DataManager {
    fn lookup(&mut self, reference: &DataRef<MacroData>) -> Option<Data<MacroData>> {
        let storage_tag = match self.inner.get_for_data(MACRO_DATA_TAG) {
            Some(h) => h.storage_tag(),
            None => return None,
        };
        let handle = match self.inner.get_and_remove(storage_tag) {
            Some(h) => h,
            None => return None,
        };
        match handle {
            Handle::MacroStore(mut s) => {
                let r = datacache::lookup_or_absent(&mut s, reference, &mut self.errors);
                self.inner.register_storage(Handle::MacroStore(s));
                r
            }
            other => {
                self.inner.register_storage(other);
                None
            }
        }
    }
}

fn manager() -> DataManager {
    let mut storage = DataManager::new();
    storage.register_storage(Handle::MacroStore(MacroDataStorage::new(MacroExecutor)));
    storage.register_storage(Handle::OtherStore(OtherDataStorage::new(OtherExecutor)));
    storage
}

#[test]
fn test_get_storage_by_data() {
    let mut manager = StorageManager::new();
    manager.register_storage(Handle::MacroStore(MacroDataStorage::new(MacroExecutor)));
    assert!(manager.get_storage(MACRO_STORAGE_TAG).is_some());
    assert!(manager.get_for_data(MACRO_DATA_TAG).is_some());
}

#[test]
fn test_manager() {
    let storage = manager();
    assert!(storage.get_for_data(MACRO_DATA_TAG).is_some());
    assert!(storage.get_for_data(OTHER_DATA_TAG).is_some());
}

#[test]
fn removed_storage_resolves_to_absence() {
    // removing by storage identity leaves the record-type binding dangling,
    // which resolves to absence
    let mut manager = StorageManager::new();
    manager.register_storage(Handle::MacroStore(MacroDataStorage::new(MacroExecutor)));
    assert!(manager.get_and_remove(MACRO_STORAGE_TAG).is_some());
    assert!(manager.get_for_data(MACRO_DATA_TAG).is_none());
    assert!(manager.get_and_remove(MACRO_STORAGE_TAG).is_none());
}

#[test]
fn unregistered_type_is_absent() {
    // two record types are registered; a third, never registered, is absent
    let storage = manager();
    assert!(storage.get_for_data(99).is_none());
}

#[test]
fn test_lookup() {
    let mut storage = manager();
    let d_ref: DataRef<MacroData> = DataRef::new(Query::ById(7));
    let data = storage.lookup(&d_ref);
    assert_eq!(Some(Data::new(MacroData { id: 7, slug: "Test Data".into() })), data);
}
