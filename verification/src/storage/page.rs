//! The page codec: from one page's bytes to its b-tree page header and cell
//! pointer array.

use crate::errors::FormatError;
use vstd::prelude::*;

verus! {

/// Type byte of an interior page of an index b-tree.
pub const INTERIOR_INDEX: u8 = 0x02;

/// Type byte of an interior page of a table b-tree.
pub const INTERIOR_TABLE: u8 = 0x05;

/// Type byte of a leaf page of an index b-tree.
pub const LEAF_INDEX: u8 = 0x0A;

/// Type byte of a leaf page of a table b-tree.
pub const LEAF_TABLE: u8 = 0x0D;

/// Length of the database header that precedes the b-tree page header on the first page.
pub const DATABASE_HEADER_LEN: usize = 100;

/// The decoded header of a b-tree page, with its cell pointer array.
#[derive(Clone, Debug, PartialEq, Eq)]
pub struct Page {
    pub page_type: u8,
    pub cell_count: u16,
    pub cell_content_area: u16,
    pub right_most_pointer: Option<u32>,
    pub cells: Vec<u16>,
}

/// What a `Page` holds, as mathematical values.
pub struct PageView {
    pub page_type: u8,
    pub cell_count: u16,
    pub cell_content_area: u16,
    pub right_most_pointer: Option<u32>,
    pub cells: Seq<u16>,
}

impl View for Page {
    type V = PageView;

    open spec fn view(&self) -> PageView {
        PageView {
            page_type: self.page_type,
            cell_count: self.cell_count,
            cell_content_area: self.cell_content_area,
            right_most_pointer: self.right_most_pointer,
            cells: self.cells@,
        }
    }
}

/// The kind of b-tree page that a type byte stands for.
#[derive(Clone, Copy, Debug, PartialEq, Eq, Structural)]
pub enum PageType {
    InteriorIndex,
    InteriorTable,
    LeafIndex,
    LeafTable,
}

pub open spec fn is_page_type(b: u8) -> bool {
    b == INTERIOR_INDEX || b == INTERIOR_TABLE || b == LEAF_INDEX || b == LEAF_TABLE
}

pub open spec fn is_interior_type(b: u8) -> bool {
    b == INTERIOR_INDEX || b == INTERIOR_TABLE
}

/// The length of the page header: twelve bytes with a right-most pointer, eight without.
pub open spec fn page_header_len(b: u8) -> int {
    if is_interior_type(b) {
        12
    } else {
        8
    }
}

/// The big-endian 16-bit integer at `at`.
pub open spec fn be_u16(bytes: Seq<u8>, at: int) -> u16 {
    (bytes[at] as int * 256 + bytes[at + 1] as int) as u16
}

/// The big-endian 32-bit integer at `at`.
pub open spec fn be_u32(bytes: Seq<u8>, at: int) -> u32 {
    (bytes[at] as int * 0x100_0000 + bytes[at + 1] as int * 0x1_0000 + bytes[at + 2] as int * 0x100
        + bytes[at + 3] as int) as u32
}

/// The page whose header starts at `start` in `bytes`. Cell pointers count
/// from the start of `bytes`, wherever the header stands.
pub open spec fn spec_parse_page(bytes: Seq<u8>, start: int) -> Result<PageView, FormatError> {
    if bytes.len() < start + 8 {
        Err(FormatError::BufferTooShort)
    } else if !is_page_type(bytes[start]) {
        Err(FormatError::InvalidPageType)
    } else if bytes.len() < start + page_header_len(bytes[start]) {
        Err(FormatError::BufferTooShort)
    } else {
        let page_type = bytes[start];
        let cell_count = be_u16(bytes, start + 3);
        let array = start + page_header_len(page_type);
        if bytes.len() < array + 2 * cell_count {
            Err(FormatError::BufferTooShort)
        } else {
            Ok(
                PageView {
                    page_type,
                    cell_count,
                    cell_content_area: be_u16(bytes, start + 5),
                    right_most_pointer: if is_interior_type(page_type) {
                        Some(be_u32(bytes, start + 8))
                    } else {
                        None
                    },
                    cells: Seq::new(cell_count as nat, |i: int| be_u16(bytes, array + 2 * i)),
                },
            )
        }
    }
}

/// A page as the codec hands it out: a known type, a right-most pointer on
/// interior pages only, and one pointer for each cell.
pub open spec fn page_wf(p: PageView) -> bool {
    &&& is_page_type(p.page_type)
    &&& p.right_most_pointer is Some <==> is_interior_type(p.page_type)
    &&& p.cells.len() == p.cell_count
}

/// Where the cell content area starts: the header's value, with 0 standing for 65536.
pub open spec fn content_area_start(p: PageView) -> int {
    if p.cell_content_area == 0 {
        65536
    } else {
        p.cell_content_area as int
    }
}

/// The layout that a sound page has: the cell content area starts inside
/// the page, and the cell pointer array, which follows the page header at
/// `start`, ends before it.
pub open spec fn layout_consistent(p: PageView, start: int, page_size: int) -> bool {
    &&& content_area_start(p) <= page_size
    &&& start + page_header_len(p.page_type) + 2 * p.cell_count <= content_area_start(p)
}

/// Every page that parses is well formed.
pub proof fn lemma_parsed_page_wf(bytes: Seq<u8>, start: int)
    ensures
        spec_parse_page(bytes, start) matches Ok(p) ==> page_wf(p),
{
}

impl Page {
    /// Whether the page, whose header starts at `start` in a page of
    /// `page_size` bytes, keeps its cell pointer array and its cell content
    /// area apart and inside the page.
    pub fn has_consistent_layout(&self, start: usize, page_size: usize) -> (r: bool)
        ensures
            r == layout_consistent(self@, start as int, page_size as int),
    {
        let content: usize = if self.cell_content_area == 0 {
            65536
        } else {
            self.cell_content_area as usize
        };
        let header_len: usize = if self.page_type == INTERIOR_INDEX || self.page_type
            == INTERIOR_TABLE {
            12
        } else {
            8
        };
        content <= page_size && start <= content && header_len + 2 * (self.cell_count as usize)
            <= content - start
    }

    /// The kind of page, or `None` where the type byte stands for none.
    pub fn kind(&self) -> (r: Option<PageType>)
        ensures
            r is Some <==> is_page_type(self.page_type),
            r == Some(PageType::InteriorIndex) <==> self.page_type == INTERIOR_INDEX,
            r == Some(PageType::InteriorTable) <==> self.page_type == INTERIOR_TABLE,
            r == Some(PageType::LeafIndex) <==> self.page_type == LEAF_INDEX,
            r == Some(PageType::LeafTable) <==> self.page_type == LEAF_TABLE,
    {
        if self.page_type == INTERIOR_INDEX {
            Some(PageType::InteriorIndex)
        } else if self.page_type == INTERIOR_TABLE {
            Some(PageType::InteriorTable)
        } else if self.page_type == LEAF_INDEX {
            Some(PageType::LeafIndex)
        } else if self.page_type == LEAF_TABLE {
            Some(PageType::LeafTable)
        } else {
            None
        }
    }
}

/// Reads the big-endian 16-bit integer at `at`.
pub fn read_be_u16(bytes: &[u8], at: usize) -> (r: u16)
    requires
        at + 2 <= bytes@.len(),
    ensures
        r == be_u16(bytes@, at as int),
{
    let hi: u16 = bytes[at] as u16;
    let lo: u16 = bytes[at + 1] as u16;
    hi * 256 + lo
}

/// Reads the big-endian 32-bit integer at `at`.
pub fn read_be_u32(bytes: &[u8], at: usize) -> (r: u32)
    requires
        at + 4 <= bytes@.len(),
    ensures
        r == be_u32(bytes@, at as int),
{
    let b0: u32 = bytes[at] as u32;
    let b1: u32 = bytes[at + 1] as u32;
    let b2: u32 = bytes[at + 2] as u32;
    let b3: u32 = bytes[at + 3] as u32;
    b0 * 0x100_0000 + b1 * 0x1_0000 + b2 * 0x100 + b3
}

/// Parses the page whose header starts at `start` in `page_data`: at 0, or
/// behind the database header on the first page of a file.
pub fn parse_page_at(page_data: &[u8], start: usize) -> (r: Result<Page, FormatError>)
    ensures
        match r {
            Ok(p) => spec_parse_page(page_data@, start as int) == Ok::<PageView, FormatError>(p@),
            Err(e) => spec_parse_page(page_data@, start as int) == Err::<PageView, FormatError>(e),
        },
{
    let len = page_data.len();
    if len < 8 || start > len - 8 {
        return Err(FormatError::BufferTooShort);
    }
    let page_type = page_data[start];
    let interior = page_type == INTERIOR_INDEX || page_type == INTERIOR_TABLE;
    if !interior && page_type != LEAF_INDEX && page_type != LEAF_TABLE {
        return Err(FormatError::InvalidPageType);
    }
    let cell_count = read_be_u16(page_data, start + 3);
    let cell_content_area = read_be_u16(page_data, start + 5);
    let header_len: usize = if interior {
        12
    } else {
        8
    };
    if len < header_len || start > len - header_len {
        return Err(FormatError::BufferTooShort);
    }
    let right_most_pointer = if interior {
        Some(read_be_u32(page_data, start + 8))
    } else {
        None
    };
    let array: usize = start + header_len;
    if (len - array) / 2 < cell_count as usize {
        return Err(FormatError::BufferTooShort);
    }
    let mut cells: Vec<u16> = Vec::new();
    let mut i: usize = 0;
    while i < cell_count as usize
        invariant
            i <= cell_count,
            array + 2 * cell_count <= len,
            len == page_data@.len(),
            cells@.len() == i,
            forall|j: int| 0 <= j < i ==> cells@[j] == be_u16(page_data@, array + 2 * j),
        decreases cell_count - i,
    {
        cells.push(read_be_u16(page_data, array + 2 * i));
        i = i + 1;
    }
    proof {
        assert(cells@ =~= Seq::new(
            cell_count as nat,
            |j: int| be_u16(page_data@, array + 2 * j),
        ));
    }
    Ok(Page { page_type, cell_count, cell_content_area, right_most_pointer, cells })
}

/// Parses a page whose header stands at the start of `page_data`.
///
/// A buffer of fewer than eight bytes, or of fewer than twelve where the
/// type byte names an interior page, is refused as too short; so is one that
/// ends inside the cell pointer array.
pub fn parse_page(page_data: &[u8]) -> (r: Result<Page, FormatError>)
    ensures
        match r {
            Ok(p) => spec_parse_page(page_data@, 0) == Ok::<PageView, FormatError>(p@),
            Err(e) => spec_parse_page(page_data@, 0) == Err::<PageView, FormatError>(e),
        },
        page_data@.len() < 8 ==> r == Err::<Page, FormatError>(FormatError::BufferTooShort),
        8 <= page_data@.len() < 12 && is_interior_type(page_data@[0]) ==> r == Err::<
            Page,
            FormatError,
        >(FormatError::BufferTooShort),
        8 <= page_data@.len() && !is_page_type(page_data@[0]) ==> r == Err::<Page, FormatError>(
            FormatError::InvalidPageType,
        ),
        r matches Ok(p) ==> page_wf(p@),
{
    parse_page_at(page_data, 0)
}

} // verus!
