//! A read path into SQLite database files: the page codec, the record
//! decoder, the walk over table b-trees and the schema catalog, verified with
//! Verus.
//!
//! The library works on an in-memory image of the database file. Reading the
//! file is the caller's business.

pub mod db;
pub mod errors;
pub mod storage;
