//! What is built on the storage layer: the schema catalog and the query types.

pub mod connection;
pub mod query;
pub mod schema;
pub mod transaction;
