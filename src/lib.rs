//! Incremental issue synchronization: query building, tolerant mapping of
//! tracker JSON, page-by-page sync decisions and an idempotent upsert store.
pub mod json;
pub mod numbers;
pub mod time;
pub mod types;
pub mod query;
pub mod page;
pub mod store;
pub mod sync;
pub mod credentials;
