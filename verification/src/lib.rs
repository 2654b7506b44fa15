//! A read-through, query-indexed cache layer.
//!
//! The library sits between application code and a slower backing data
//! source. For each record type it keeps a primary id-to-record cache, a
//! secondary query-to-id index, and a coalescing query cache that remembers
//! the outcome of a load, so that repeated lookups for the same query reach
//! the backing store at most once. A registry holds one such cache per
//! record type, and a lookup capability resolves typed references through
//! the registry, absorbing backing-store errors into absence.

pub mod executor;
pub mod laws;
pub mod lookup;
pub mod manager;
pub mod query;
pub mod record;
pub mod storage;
pub mod table;

pub use executor::CacheError;
pub use executor::DataQueryExecutor;
pub use query::Query;
pub use query::QueryKey;
pub use record::Data;
pub use record::DataMarker;
pub use record::DataRef;
pub use lookup::lookup_or_absent;
pub use lookup::ErrorHandler;
pub use lookup::LookupRef;
pub use manager::StorageHandle;
pub use manager::StorageManager;
pub use storage::by_id_trace;
pub use storage::listed_and_resolved;
pub use storage::resolved_all;
pub use storage::resolved_by_id;
pub use storage::views_of;
pub use storage::CacheModel;
pub use storage::DataCache;
pub use storage::DataStorage;
pub use table::Table;
pub use table::TableKey;
