//! The on-disk format: variable-length integers, records, pages and b-trees.

pub mod btree;
pub mod cursor;
pub mod encode;
pub mod header;
pub mod page;
pub mod record;
pub mod tree;
pub mod varint;
