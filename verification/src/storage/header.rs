//! The database header: the first hundred bytes of the file.

use crate::errors::FormatError;
use crate::storage::btree::{is_valid_page_size, valid_page_size};
use crate::storage::page::{be_u16, be_u32, read_be_u16, read_be_u32, DATABASE_HEADER_LEN};
use vstd::prelude::*;

verus! {

/// What the library reads of the database header.
#[derive(Clone, Copy, Debug, PartialEq, Eq, Structural)]
pub struct DatabaseHeader {
    /// The size of a page in bytes.
    pub page_size: u32,
    /// The size of the file in pages, as the header states it.
    pub page_count: u32,
    /// The code of the text encoding.
    pub text_encoding: u32,
    /// The number of bytes at the end of each page that the b-tree does not use.
    pub reserved_space: u8,
}

/// The sixteen bytes that every database file starts with: the text
/// `SQLite format 3` and a zero byte.
pub open spec fn signature() -> Seq<u8> {
    seq![
        0x53u8, 0x51u8, 0x4cu8, 0x69u8, 0x74u8, 0x65u8, 0x20u8, 0x66u8,
        0x6fu8, 0x72u8, 0x6du8, 0x61u8, 0x74u8, 0x20u8, 0x33u8, 0x00u8,
    ]
}

/// The page size that the two bytes at offset 16 stand for: the value 1
/// stands for 65536, every other value for itself.
pub open spec fn page_size_of(raw: u16) -> nat {
    if raw == 1 {
        65536
    } else {
        raw as nat
    }
}

/// The header that `bytes` starts with.
pub open spec fn spec_parse_header(bytes: Seq<u8>) -> Result<DatabaseHeader, FormatError> {
    if bytes.len() < DATABASE_HEADER_LEN {
        Err(FormatError::BufferTooShort)
    } else if bytes.subrange(0, 16) != signature() {
        Err(FormatError::BadSignature)
    } else if !valid_page_size(page_size_of(be_u16(bytes, 16))) {
        Err(FormatError::InvalidPageSize)
    } else {
        Ok(
            DatabaseHeader {
                page_size: page_size_of(be_u16(bytes, 16)) as u32,
                page_count: be_u32(bytes, 28),
                text_encoding: be_u32(bytes, 56),
                reserved_space: bytes[20],
            },
        )
    }
}

/// Whether `bytes` starts with the signature.
fn has_signature(bytes: &[u8]) -> (r: bool)
    requires
        bytes@.len() >= 16,
    ensures
        r == (bytes@.subrange(0, 16) == signature()),
{
    let expected: [u8; 16] = [
        0x53, 0x51, 0x4c, 0x69, 0x74, 0x65, 0x20, 0x66,
        0x6f, 0x72, 0x6d, 0x61, 0x74, 0x20, 0x33, 0x00,
    ];
    let mut i: usize = 0;
    while i < 16
        invariant
            i <= 16,
            bytes@.len() >= 16,
            expected@ == signature(),
            forall|j: int| 0 <= j < i ==> bytes@[j] == signature()[j],
        decreases 16 - i,
    {
        if bytes[i] != expected[i] {
            return false;
        }
        i = i + 1;
    }
    assert(bytes@.subrange(0, 16) =~= signature());
    true
}

/// Parses the database header. The file must start with the signature, and
/// its page size must be a power of two from 512 to 32768, or 65536 written as 1.
pub fn parse_header(bytes: &[u8]) -> (r: Result<DatabaseHeader, FormatError>)
    ensures
        r == spec_parse_header(bytes@),
{
    if bytes.len() < DATABASE_HEADER_LEN {
        return Err(FormatError::BufferTooShort);
    }
    if !has_signature(bytes) {
        return Err(FormatError::BadSignature);
    }
    let raw = read_be_u16(bytes, 16);
    let page_size: u32 = if raw == 1 {
        65536
    } else {
        raw as u32
    };
    if !is_valid_page_size(page_size) {
        return Err(FormatError::InvalidPageSize);
    }
    Ok(
        DatabaseHeader {
            page_size,
            page_count: read_be_u32(bytes, 28),
            text_encoding: read_be_u32(bytes, 56),
            reserved_space: bytes[20],
        },
    )
}

} // verus!
