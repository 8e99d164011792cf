//! The error types of the read path.

use vstd::prelude::*;

verus! {

/// A structural violation of the file format.
#[derive(Clone, Copy, Debug, PartialEq, Eq, Structural)]
pub enum FormatError {
    /// The buffer ends before a variable-length integer does.
    TruncatedVarint,
    /// A record's value area is shorter than its header declares.
    RecordTruncated,
    /// A record header holds one of the two reserved serial types.
    InvalidSerialType,
    /// A read at a fixed offset, or of the cell pointer array, runs past the buffer.
    BufferTooShort,
    /// The page type byte is none of the four b-tree page types, or the page
    /// is of a type that the operation does not walk.
    InvalidPageType,
    /// An overflow chain ends before the payload is complete.
    OverflowChainBroken,
    /// An overflow chain comes back to a page it has already used.
    CyclicOverflowChain,
    /// The file does not start with the format's signature.
    BadSignature,
    /// The page size in the file header is not a power of two in range.
    InvalidPageSize,
    /// A page number is zero or lies beyond the end of the file.
    PageOutOfRange,
    /// A walk visits more pages than the file holds, so what it walks is no tree.
    TreeTooLarge,
}

/// A format error in the bytes of one page, with the place where it was found.
#[derive(Clone, Copy, Debug, PartialEq, Eq, Structural)]
pub struct OffsetError {
    /// The byte offset in the page at which the page header or the cell
    /// that does not decode starts.
    pub offset: usize,
    /// What is wrong there.
    pub error: FormatError,
}

/// A format error in a database, with the place where it was found.
#[derive(Clone, Copy, Debug, PartialEq, Eq, Structural)]
pub struct PageError {
    /// The page that was being decoded, counted from one.
    pub page: u32,
    /// The byte offset in that page at which the page header or the cell
    /// that does not decode starts; 0 where the page itself is at fault.
    pub offset: usize,
    /// What is wrong there.
    pub error: FormatError,
}

/// A fault in what well-formed pages hold.
#[derive(Clone, Copy, Debug, PartialEq, Eq, Structural)]
pub enum CatalogError {
    /// The schema row with this row id does not have the five columns of a
    /// schema entry, or has one of another storage class than the entry asks for.
    MalformedSchemaRow { row_id: i64 },
}

/// Why a statement was not carried out.
#[derive(Clone, Copy, Debug, PartialEq, Eq, Structural)]
pub enum QueryError {
    /// The text does not start with the keyword of a statement.
    UnsupportedStatement,
    /// The statement is of a kind that `execute` does not take.
    UnsupportedForExecute,
    /// The statement is of a kind that `query` does not take.
    UnsupportedForQuery,
    /// Prepared statements cannot be executed.
    NotImplemented,
}

/// Why the state of a transaction was not changed.
#[derive(Clone, Copy, Debug, PartialEq, Eq, Structural)]
pub enum TransactionError {
    /// There is no transaction to commit or to roll back.
    NoActiveTransaction,
    /// No savepoint of that name has been set.
    UnknownSavepoint,
}

} // verus!
