//! A typed access layer for a document database: a filter algebra, query
//! pipelines with joins, partial updates and index reconciliation, all as
//! plain document values that a driver executes.

pub mod error;
pub mod field;
pub mod filter;
pub mod index;
pub mod join;
pub mod model;
pub mod query;
pub mod reconcile;
pub mod registry;
pub mod update;
pub mod value;
