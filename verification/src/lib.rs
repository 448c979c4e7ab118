//! Connection and transaction core of an embedded, log-structured,
//! schema-aware fact store.
//!
//! The store represents data as immutable assertions *(entity, attribute,
//! value, transaction, added?)* — datoms — organized into transactions.
//! A [`conn::Conn`] holds the live metadata of the store (a partition map
//! allocating entity-id ranges, and a schema describing attributes); an
//! [`conn::InProgress`] stages schema, partition and datom changes within
//! an underlying relational transaction and commits them atomically with
//! a generation increment.

pub mod types;
pub mod partition;
pub mod schema;
pub mod edn;
pub mod entities;
pub mod order;
pub mod transactor;
pub mod store;
pub mod query;
pub mod conn;
pub mod debug;
