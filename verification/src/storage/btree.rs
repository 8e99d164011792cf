//! Table b-trees over the image of a database file: page access, cells with
//! their overflow chains, and the walk from a root page down to its rows.

use crate::errors::{FormatError, OffsetError, PageError};
use crate::storage::page::{
    be_u32, parse_page_at, read_be_u32, spec_parse_page, Page, PageView, DATABASE_HEADER_LEN,
    INTERIOR_TABLE, LEAF_TABLE,
};
use crate::storage::record::{
    copy_bytes, decode_record, spec_decode_record, twos_complement, u64_to_i64, values_view, Value,
    ValueView,
};
use crate::storage::varint::{lemma_varint_bounds, read_varint, spec_read_varint};
use std::collections::HashSet;
use vstd::prelude::*;
use vstd::slice::slice_subrange;

verus! {

/// A database file as a mathematical value: its bytes, its page size and the
/// number of bytes reserved at the end of each page.
pub struct Database {
    pub image: Seq<u8>,
    pub page_size: nat,
    pub reserved: nat,
}

/// A power of two from 512 to 65536.
pub open spec fn valid_page_size(page_size: nat) -> bool {
    page_size == 512 || page_size == 1024 || page_size == 2048 || page_size == 4096 || page_size
        == 8192 || page_size == 16384 || page_size == 32768 || page_size == 65536
}

/// Page `n`, counted from one, lies wholly inside the image.
pub open spec fn has_page(db: Database, n: u32) -> bool {
    n >= 1 && n * db.page_size <= db.image.len()
}

/// The bytes of page `n`.
pub open spec fn page_bytes(db: Database, n: u32) -> Seq<u8> {
    db.image.subrange((n - 1) * db.page_size, n * db.page_size)
}

/// Where the b-tree page header starts in page `n`: behind the database
/// header on the first page, at the start of every other.
pub open spec fn page_header_start(n: u32) -> int {
    if n == 1 {
        DATABASE_HEADER_LEN as int
    } else {
        0
    }
}

/// The number of payload bytes that a table leaf cell keeps on its own page,
/// for a page with `usable` bytes and a payload of `total` bytes.
///
/// A payload of up to `x = usable - 35` bytes stays whole. Of a longer one,
/// `k = m + (total - m) mod (usable - 4)` bytes stay where that is no more
/// than `x`, and `m = (usable - 12) * 32 / 255 - 23` bytes otherwise; the
/// rest goes to overflow pages.
pub open spec fn local_payload_size(usable: nat, total: nat) -> nat {
    let x = usable - 35;
    let m = (usable - 12) * 32 / 255 - 23;
    let k = m + (total - m) % (usable - 4);
    if total <= x {
        total
    } else if k <= x {
        k as nat
    } else {
        m as nat
    }
}

/// The rest of a payload, read from the overflow chain that starts at page
/// `next`, behind the bytes `acc` that are already there. `visited` holds
/// the pages of the chain so far. Each page gives its first four bytes as
/// the number of the next page and then payload, up to the page's end.
pub open spec fn overflow_from(
    db: Database,
    next: u32,
    remaining: nat,
    visited: Set<u32>,
    acc: Seq<u8>,
) -> Result<Seq<u8>, FormatError>
    decreases remaining,
{
    if remaining == 0 {
        Ok(acc)
    } else if next == 0 {
        Err(FormatError::OverflowChainBroken)
    } else if visited.contains(next) {
        Err(FormatError::CyclicOverflowChain)
    } else if !has_page(db, next) {
        Err(FormatError::PageOutOfRange)
    } else if db.page_size <= 4 {
        Err(FormatError::InvalidPageSize)
    } else {
        let page = page_bytes(db, next);
        let take = if remaining <= db.page_size - 4 {
            remaining
        } else {
            (db.page_size - 4) as nat
        };
        overflow_from(
            db,
            be_u32(page, 0),
            (remaining - take) as nat,
            visited.insert(next),
            acc + page.subrange(4, 4 + take as int),
        )
    }
}

/// One cell of a table b-tree page. An interior cell has a left child and a
/// key; a leaf cell has the row id as its key, and the row's whole payload.
/// `offset` is where the cell starts in its page.
#[derive(Clone, Debug, PartialEq, Eq)]
pub struct Cell {
    pub offset: u16,
    pub left_child_pointer: Option<u32>,
    pub key: i64,
    pub payload: Option<Vec<u8>>,
}

/// A cell as a mathematical value.
pub struct CellView {
    pub offset: u16,
    pub left_child_pointer: Option<u32>,
    pub key: i64,
    pub payload: Option<Seq<u8>>,
}

impl View for Cell {
    type V = CellView;

    open spec fn view(&self) -> CellView {
        CellView {
            offset: self.offset,
            left_child_pointer: self.left_child_pointer,
            key: self.key,
            payload: match self.payload {
                Some(p) => Some(p@),
                None => None,
            },
        }
    }
}

/// The views of a page's cells, in the order of the cell pointer array.
pub open spec fn cells_view(cells: Seq<Cell>) -> Seq<CellView> {
    Seq::new(cells.len(), |i: int| cells[i]@)
}

/// The 64-bit two's-complement reading of an integer that was decoded as unsigned.
pub open spec fn as_signed(v: nat) -> i64 {
    twos_complement(v, 8) as i64
}

/// The interior table cell at `at`: a four-byte child page number, then the key.
pub open spec fn spec_interior_cell(page: Seq<u8>, at: u16) -> Result<CellView, FormatError> {
    if at + 4 > page.len() {
        Err(FormatError::BufferTooShort)
    } else {
        match spec_read_varint(page, at + 4) {
            Err(e) => Err(e),
            Ok((key, _)) => Ok(
                CellView {
                    offset: at,
                    left_child_pointer: Some(be_u32(page, at as int)),
                    key: as_signed(key),
                    payload: None,
                },
            ),
        }
    }
}

/// The table leaf cell at `at`: the payload's length, the row id, then the
/// payload's local part and, where the payload is longer, the number of its
/// first overflow page.
pub open spec fn spec_leaf_cell(db: Database, page: Seq<u8>, at: u16) -> Result<
    CellView,
    FormatError,
> {
    match spec_read_varint(page, at as int) {
        Err(e) => Err(e),
        Ok((total, n1)) => match spec_read_varint(page, at + n1) {
            Err(e) => Err(e),
            Ok((row_id, n2)) => {
                let start = at + n1 + n2;
                let local = local_payload_size((db.page_size - db.reserved) as nat, total);
                if start + local > page.len() {
                    Err(FormatError::BufferTooShort)
                } else if local == total {
                    Ok(
                        CellView {
                            offset: at,
                            left_child_pointer: None,
                            key: as_signed(row_id),
                            payload: Some(page.subrange(start, start + local)),
                        },
                    )
                } else if start + local + 4 > page.len() {
                    Err(FormatError::BufferTooShort)
                } else {
                    match overflow_from(
                        db,
                        be_u32(page, start + local),
                        (total - local) as nat,
                        Set::empty(),
                        page.subrange(start, start + local),
                    ) {
                        Err(e) => Err(e),
                        Ok(payload) => Ok(
                            CellView {
                                offset: at,
                                left_child_pointer: None,
                                key: as_signed(row_id),
                                payload: Some(payload),
                            },
                        ),
                    }
                }
            },
        },
    }
}

/// The cells `i..` of a table page, behind the cells `acc`. The first cell
/// that does not decode gives its error, with the offset of the cell.
pub open spec fn extract_cells_from(
    db: Database,
    page: PageView,
    bytes: Seq<u8>,
    i: nat,
    acc: Seq<CellView>,
) -> Result<Seq<CellView>, OffsetError>
    decreases page.cells.len() - i,
{
    if i >= page.cells.len() {
        Ok(acc)
    } else {
        let cell = if page.page_type == LEAF_TABLE {
            spec_leaf_cell(db, bytes, page.cells[i as int])
        } else {
            spec_interior_cell(bytes, page.cells[i as int])
        };
        match cell {
            Err(e) => Err(OffsetError { offset: page.cells[i as int] as usize, error: e }),
            Ok(c) => extract_cells_from(db, page, bytes, i + 1, acc.push(c)),
        }
    }
}

/// The cells of a table page, in the order of its cell pointer array. A page
/// of an index b-tree has no cells of the kinds read here.
pub open spec fn spec_extract_cells(db: Database, page: PageView, bytes: Seq<u8>) -> Result<
    Seq<CellView>,
    OffsetError,
> {
    if page.page_type != LEAF_TABLE && page.page_type != INTERIOR_TABLE {
        Err(OffsetError { offset: 0, error: FormatError::InvalidPageType })
    } else {
        extract_cells_from(db, page, bytes, 0, Seq::empty())
    }
}

/// A b-tree page with its cells.
#[derive(Clone, Debug, PartialEq, Eq)]
pub struct BTreePage {
    pub page_number: u32,
    pub page_type: u8,
    pub cell_count: u16,
    pub cell_content_area: u16,
    pub right_most_pointer: Option<u32>,
    pub cells: Vec<Cell>,
}

/// A b-tree page as a mathematical value.
pub struct BTreePageView {
    pub page_number: u32,
    pub page_type: u8,
    pub cell_count: u16,
    pub cell_content_area: u16,
    pub right_most_pointer: Option<u32>,
    pub cells: Seq<CellView>,
}

impl View for BTreePage {
    type V = BTreePageView;

    open spec fn view(&self) -> BTreePageView {
        BTreePageView {
            page_number: self.page_number,
            page_type: self.page_type,
            cell_count: self.cell_count,
            cell_content_area: self.cell_content_area,
            right_most_pointer: self.right_most_pointer,
            cells: cells_view(self.cells@),
        }
    }
}

/// Page `page_number` of a database, given the page's bytes. A fault in the
/// page header, and a page of an index b-tree, are reported at the offset
/// of the page header; a fault in a cell at the offset of the cell.
pub open spec fn spec_parse_btree_page(db: Database, bytes: Seq<u8>, page_number: u32) -> Result<
    BTreePageView,
    OffsetError,
> {
    let start = page_header_start(page_number) as usize;
    match spec_parse_page(bytes, start as int) {
        Err(e) => Err(OffsetError { offset: start, error: e }),
        Ok(page) => {
            if page.page_type != LEAF_TABLE && page.page_type != INTERIOR_TABLE {
                Err(OffsetError { offset: start, error: FormatError::InvalidPageType })
            } else {
                match spec_extract_cells(db, page, bytes) {
                    Err(e) => Err(e),
                    Ok(cells) => Ok(
                        BTreePageView {
                            page_number,
                            page_type: page.page_type,
                            cell_count: page.cell_count,
                            cell_content_area: page.cell_content_area,
                            right_most_pointer: page.right_most_pointer,
                            cells,
                        },
                    ),
                }
            }
        },
    }
}

/// Page `n` of a database.
pub open spec fn spec_read_page(db: Database, n: u32) -> Result<BTreePageView, PageError> {
    if !has_page(db, n) {
        Err(PageError { page: n, offset: 0, error: FormatError::PageOutOfRange })
    } else {
        match spec_parse_btree_page(db, page_bytes(db, n), n) {
            Err(e) => Err(PageError { page: n, offset: e.offset, error: e.error }),
            Ok(page) => Ok(page),
        }
    }
}

/// One row of a table: its row id and its column values.
#[derive(Clone, Debug, PartialEq, Eq)]
pub struct Row {
    pub row_id: i64,
    pub values: Vec<Value>,
}

/// A row as a mathematical value.
pub struct RowView {
    pub row_id: i64,
    pub values: Seq<ValueView>,
}

impl View for Row {
    type V = RowView;

    open spec fn view(&self) -> RowView {
        RowView { row_id: self.row_id, values: values_view(self.values@) }
    }
}

/// The views of rows, in their order.
pub open spec fn rows_view(rows: Seq<Row>) -> Seq<RowView> {
    Seq::new(rows.len(), |i: int| rows[i]@)
}

/// The rows of the leaf cells `cells[i..]`, behind the rows `acc`. The first
/// record that does not decode gives its error, with the offset of its cell.
pub open spec fn rows_from(cells: Seq<CellView>, i: nat, acc: Seq<RowView>) -> Result<
    Seq<RowView>,
    OffsetError,
>
    decreases cells.len() - i,
{
    if i >= cells.len() {
        Ok(acc)
    } else {
        let offset = cells[i as int].offset as usize;
        match cells[i as int].payload {
            None => Err(OffsetError { offset, error: FormatError::RecordTruncated }),
            Some(payload) => match spec_decode_record(payload) {
                Err(e) => Err(OffsetError { offset, error: e }),
                Ok(values) => rows_from(
                    cells,
                    i + 1,
                    acc.push(RowView { row_id: cells[i as int].key, values }),
                ),
            },
        }
    }
}

/// The left children of the cells `cells[i..]`, behind `acc`.
pub open spec fn left_children_from(cells: Seq<CellView>, i: nat, acc: Seq<u32>) -> Seq<u32>
    decreases cells.len() - i,
{
    if i >= cells.len() {
        acc
    } else {
        match cells[i as int].left_child_pointer {
            Some(child) => left_children_from(cells, i + 1, acc.push(child)),
            None => left_children_from(cells, i + 1, acc),
        }
    }
}

/// The children of an interior page from left to right: the left child of
/// each cell, then the right-most child.
pub open spec fn children_of(cells: Seq<CellView>, right_most_pointer: Option<u32>) -> Seq<u32> {
    let left = left_children_from(cells, 0, Seq::empty());
    match right_most_pointer {
        Some(right) => left.push(right),
        None => left,
    }
}

/// The number of pages that a walk may visit: the number of pages that the
/// file holds, as far as page numbers reach. A tree visits no page twice, so
/// a walk that needs more is not over a tree.
pub open spec fn walk_budget(db: Database) -> nat {
    let pages = db.image.len() / db.page_size;
    if pages > 0xFFFF_FFFF {
        0xFFFF_FFFF
    } else {
        pages
    }
}

/// The rows under the pages of `stack`, behind the rows `acc`: depth first
/// and left to right, the page to visit next being the last of `stack`, with
/// `fuel` page visits left.
pub open spec fn scan_from(db: Database, stack: Seq<u32>, fuel: nat, acc: Seq<RowView>) -> Result<
    Seq<RowView>,
    PageError,
>
    decreases fuel,
{
    if stack.len() == 0 {
        Ok(acc)
    } else if fuel == 0 {
        Err(PageError { page: stack.last(), offset: 0, error: FormatError::TreeTooLarge })
    } else {
        match spec_read_page(db, stack.last()) {
            Err(e) => Err(e),
            Ok(page) => {
                if page.page_type == LEAF_TABLE {
                    match rows_from(page.cells, 0, acc) {
                        Err(e) => Err(
                            PageError { page: stack.last(), offset: e.offset, error: e.error },
                        ),
                        Ok(rows) => scan_from(db, stack.drop_last(), (fuel - 1) as nat, rows),
                    }
                } else if page.page_type == INTERIOR_TABLE {
                    scan_from(
                        db,
                        stack.drop_last() + children_of(
                            page.cells,
                            page.right_most_pointer,
                        ).reverse(),
                        (fuel - 1) as nat,
                        acc,
                    )
                } else {
                    Err(
                        PageError {
                            page: stack.last(),
                            offset: page_header_start(stack.last()) as usize,
                            error: FormatError::InvalidPageType,
                        },
                    )
                }
            },
        }
    }
}

/// The rows of the table b-tree whose root is page `root`, in the order of
/// the tree: every leaf's rows in the order of its cell pointer array, the
/// leaves from left to right.
pub open spec fn spec_scan_rows(db: Database, root: u32) -> Result<Seq<RowView>, PageError> {
    scan_from(db, seq![root], walk_budget(db), Seq::empty())
}

/// What a walk that counts needs of a page: the number of rows on a leaf,
/// the children of an interior page.
pub enum NodeShape {
    Leaf(nat),
    Interior(Seq<u32>),
}

/// The shape of page `n`. A leaf's cells are not decoded.
pub open spec fn spec_read_shape(db: Database, n: u32) -> Result<NodeShape, PageError> {
    let start = page_header_start(n) as usize;
    if !has_page(db, n) {
        Err(PageError { page: n, offset: 0, error: FormatError::PageOutOfRange })
    } else {
        match spec_parse_page(page_bytes(db, n), start as int) {
            Err(e) => Err(PageError { page: n, offset: start, error: e }),
            Ok(page) => {
                if page.page_type == LEAF_TABLE {
                    Ok(NodeShape::Leaf(page.cell_count as nat))
                } else if page.page_type == INTERIOR_TABLE {
                    match spec_extract_cells(db, page, page_bytes(db, n)) {
                        Err(e) => Err(PageError { page: n, offset: e.offset, error: e.error }),
                        Ok(cells) => Ok(
                            NodeShape::Interior(children_of(cells, page.right_most_pointer)),
                        ),
                    }
                } else {
                    Err(
                        PageError {
                            page: n,
                            offset: start,
                            error: FormatError::InvalidPageType,
                        },
                    )
                }
            },
        }
    }
}

/// The number of leaf rows under the pages of `stack`, added to `acc`, with
/// `fuel` page visits left.
pub open spec fn count_from(db: Database, stack: Seq<u32>, fuel: nat, acc: nat) -> Result<
    nat,
    PageError,
>
    decreases fuel,
{
    if stack.len() == 0 {
        Ok(acc)
    } else if fuel == 0 {
        Err(PageError { page: stack.last(), offset: 0, error: FormatError::TreeTooLarge })
    } else {
        match spec_read_shape(db, stack.last()) {
            Err(e) => Err(e),
            Ok(NodeShape::Leaf(rows)) => count_from(
                db,
                stack.drop_last(),
                (fuel - 1) as nat,
                acc + rows,
            ),
            Ok(NodeShape::Interior(children)) => count_from(
                db,
                stack.drop_last() + children.reverse(),
                (fuel - 1) as nat,
                acc,
            ),
        }
    }
}

/// The number of rows of the table b-tree whose root is page `root`.
pub open spec fn spec_count_leaf_rows(db: Database, root: u32) -> Result<nat, PageError> {
    count_from(db, seq![root], walk_budget(db), 0)
}

/// A handle on a database: the image of its file, with the page size and the
/// reserved space that its header gives.
#[derive(Debug)]
pub struct BTreeTraverser {
    data: Vec<u8>,
    page_size: u32,
    reserved: u8,
}

impl View for BTreeTraverser {
    type V = Database;

    closed spec fn view(&self) -> Database {
        Database {
            image: self.data@,
            page_size: self.page_size as nat,
            reserved: self.reserved as nat,
        }
    }
}

/// Whether `page_size` is a power of two from 512 to 65536.
pub fn is_valid_page_size(page_size: u32) -> (r: bool)
    ensures
        r == valid_page_size(page_size as nat),
{
    page_size == 512 || page_size == 1024 || page_size == 2048 || page_size == 4096 || page_size
        == 8192 || page_size == 16384 || page_size == 32768 || page_size == 65536
}

/// Computes the number of payload bytes that a table leaf cell keeps on its
/// own page. `usable` is what a page of a valid size has left after its
/// reserved space, which one byte states: from 257 to 65536 bytes.
pub fn local_size(usable: u32, total: u64) -> (r: u64)
    requires
        257 <= usable <= 65536,
    ensures
        r == local_payload_size(usable as nat, total as nat),
        r <= total,
        r <= usable - 35,
{
    let u: u64 = usable as u64;
    let x: u64 = u - 35;
    if total <= x {
        return total;
    }
    let m: u64 = (u - 12) * 32 / 255 - 23;
    let k: u64 = m + (total - m) % (u - 4);
    if k <= x {
        k
    } else {
        m
    }
}

/// Decodes the records of a leaf's cells and appends the rows to `rows`.
pub(crate) fn decode_rows(cells: &Vec<Cell>, rows: Vec<Row>) -> (r: Result<Vec<Row>, OffsetError>)
    ensures
        match r {
            Ok(all) => rows_from(cells_view(cells@), 0, rows_view(rows@)) == Ok::<
                Seq<RowView>,
                OffsetError,
            >(rows_view(all@)),
            Err(e) => rows_from(cells_view(cells@), 0, rows_view(rows@)) == Err::<
                Seq<RowView>,
                OffsetError,
            >(e),
        },
{
    let mut out = rows;
    let mut i: usize = 0;
    while i < cells.len()
        invariant
            i <= cells@.len(),
            rows_from(cells_view(cells@), 0, rows_view(rows@)) == rows_from(
                cells_view(cells@),
                i as nat,
                rows_view(out@),
            ),
        decreases cells@.len() - i,
    {
        let cell = &cells[i];
        let offset = cell.offset as usize;
        let values = match &cell.payload {
            None => {
                return Err(OffsetError { offset, error: FormatError::RecordTruncated });
            },
            Some(payload) => match decode_record(payload.as_slice()) {
                Err(e) => { return Err(OffsetError { offset, error: e }); },
                Ok(values) => values,
            },
        };
        let row = Row { row_id: cell.key, values };
        proof {
            assert(rows_view(out@.push(row)) =~= rows_view(out@).push(row@));
        }
        out.push(row);
        i = i + 1;
    }
    Ok(out)
}

/// Lists the children of an interior page from left to right.
pub(crate) fn list_children(cells: &Vec<Cell>, right_most_pointer: Option<u32>) -> (r: Vec<u32>)
    ensures
        r@ == children_of(cells_view(cells@), right_most_pointer),
{
    let mut out: Vec<u32> = Vec::new();
    let mut i: usize = 0;
    while i < cells.len()
        invariant
            i <= cells@.len(),
            left_children_from(cells_view(cells@), 0, Seq::empty()) == left_children_from(
                cells_view(cells@),
                i as nat,
                out@,
            ),
        decreases cells@.len() - i,
    {
        match cells[i].left_child_pointer {
            Some(child) => {
                out.push(child);
            },
            None => {},
        }
        i = i + 1;
    }
    match right_most_pointer {
        Some(right) => {
            out.push(right);
        },
        None => {},
    }
    out
}

/// Pushes `children` on `stack`, the first child last, so that it is the
/// next to be visited.
pub(crate) fn push_children(stack: &mut Vec<u32>, children: &Vec<u32>)
    ensures
        final(stack)@ == old(stack)@ + children@.reverse(),
{
    let mut j: usize = children.len();
    while j > 0
        invariant
            j <= children@.len(),
            stack@ == old(stack)@ + children@.reverse().take(children@.len() - j),
        decreases j,
    {
        j = j - 1;
        stack.push(children[j]);
    }
}

/// What a walk that counts reads of a page.
enum Node {
    Leaf(u16),
    Interior(Vec<u32>),
}

spec fn shape_of(node: Node) -> NodeShape {
    match node {
        Node::Leaf(rows) => NodeShape::Leaf(rows as nat),
        Node::Interior(children) => NodeShape::Interior(children@),
    }
}

impl BTreeTraverser {
    #[verifier::type_invariant]
    spec fn inv(self) -> bool {
        valid_page_size(self.page_size as nat)
    }

    /// A handle on the database whose file holds `data`, with pages of
    /// `page_size` bytes and no reserved space.
    pub fn new(data: Vec<u8>, page_size: u32) -> (r: Result<BTreeTraverser, FormatError>)
        ensures
            valid_page_size(page_size as nat) ==> r is Ok,
            r matches Ok(t) ==> t@ == (Database {
                image: data@,
                page_size: page_size as nat,
                reserved: 0,
            }) && valid_page_size(page_size as nat),
            r matches Err(e) ==> e == FormatError::InvalidPageSize,
    {
        BTreeTraverser::with_reserved(data, page_size, 0)
    }

    /// A handle on the database whose file holds `data`, with pages of
    /// `page_size` bytes of which the last `reserved` are not used.
    pub fn with_reserved(data: Vec<u8>, page_size: u32, reserved: u8) -> (r: Result<
        BTreeTraverser,
        FormatError,
    >)
        ensures
            valid_page_size(page_size as nat) ==> r is Ok,
            r matches Ok(t) ==> t@ == (Database {
                image: data@,
                page_size: page_size as nat,
                reserved: reserved as nat,
            }) && valid_page_size(page_size as nat),
            r matches Err(e) ==> e == FormatError::InvalidPageSize,
    {
        if is_valid_page_size(page_size) {
            Ok(BTreeTraverser { data, page_size, reserved })
        } else {
            Err(FormatError::InvalidPageSize)
        }
    }

    /// The page size in bytes.
    pub fn page_size(&self) -> (r: u32)
        ensures
            r == self@.page_size,
            valid_page_size(r as nat),
    {
        proof {
            use_type_invariant(self);
        }
        self.page_size
    }

    /// The number of whole pages in the file.
    pub fn page_count(&self) -> (r: usize)
        ensures
            r == self@.image.len() / self@.page_size,
    {
        proof {
            use_type_invariant(self);
        }
        self.data.len() / self.page_size as usize
    }

    /// The bytes of page `n`, or `None` where the file has no such page.
    fn page_slice(&self, n: u32) -> (r: Option<&[u8]>)
        ensures
            r is Some <==> has_page(self@, n),
            r matches Some(bytes) ==> bytes@ == page_bytes(self@, n) && bytes@.len()
                == self@.page_size,
            valid_page_size(self@.page_size),
            self@.reserved <= 255,
    {
        proof {
            use_type_invariant(self);
        }
        let len = self.data.len();
        let size = self.page_size as usize;
        if n == 0 {
            return None;
        }
        if (n as usize) > len / size {
            proof {
                assert(n * size > len) by (nonlinear_arith)
                    requires
                        n > len / size,
                        size > 0,
                ;
            }
            return None;
        }
        proof {
            assert(n * size <= len) by (nonlinear_arith)
                requires
                    n <= len / size,
                    size > 0,
            ;
        }
        let start: usize = (n as usize - 1) * size;
        Some(slice_subrange(self.data.as_slice(), start, start + size))
    }

    /// Reads the rest of a payload from the overflow chain that starts at
    /// page `first`, behind the local bytes in `payload`.
    fn read_overflow(&self, first: u32, remaining: u64, payload: Vec<u8>) -> (r: Result<
        Vec<u8>,
        FormatError,
    >)
        ensures
            match r {
                Ok(bytes) => overflow_from(
                    self@,
                    first,
                    remaining as nat,
                    Set::empty(),
                    payload@,
                ) == Ok::<Seq<u8>, FormatError>(bytes@),
                Err(e) => overflow_from(self@, first, remaining as nat, Set::empty(), payload@)
                    == Err::<Seq<u8>, FormatError>(e),
            },
    {
        broadcast use vstd::std_specs::hash::group_hash_axioms;

        let mut out = payload;
        let mut next = first;
        let mut left = remaining;
        let mut visited: HashSet<u32> = HashSet::new();
        let chunk: u64 = self.page_size() as u64 - 4;
        while left > 0
            invariant
                chunk == self@.page_size - 4,
                valid_page_size(self@.page_size),
                overflow_from(self@, first, remaining as nat, Set::empty(), payload@)
                    == overflow_from(self@, next, left as nat, visited@, out@),
            decreases left,
        {
            if next == 0 {
                return Err(FormatError::OverflowChainBroken);
            }
            if visited.contains(&next) {
                return Err(FormatError::CyclicOverflowChain);
            }
            let page = match self.page_slice(next) {
                Some(page) => page,
                None => { return Err(FormatError::PageOutOfRange); },
            };
            let take: u64 = if left <= chunk {
                left
            } else {
                chunk
            };
            let following = read_be_u32(page, 0);
            let mut i: usize = 0;
            let ghost before = out@;
            while i < take as usize
                invariant
                    i <= take,
                    take <= 65532,
                    4 + take <= page@.len(),
                    out@ == before + page@.subrange(4, 4 + i),
                decreases take - i,
            {
                out.push(page[4 + i]);
                i = i + 1;
            }
            visited.insert(next);
            next = following;
            left = left - take;
        }
        Ok(out)
    }

    /// Decodes the interior table cell at `at`.
    fn interior_cell(page_data: &[u8], offset: u16) -> (r: Result<Cell, FormatError>)
        ensures
            match r {
                Ok(c) => spec_interior_cell(page_data@, offset) == Ok::<CellView, FormatError>(c@),
                Err(e) => spec_interior_cell(page_data@, offset) == Err::<CellView, FormatError>(
                    e,
                ),
            },
    {
        let at = offset as usize;
        let len = page_data.len();
        if len < 4 || at > len - 4 {
            return Err(FormatError::BufferTooShort);
        }
        let child = read_be_u32(page_data, at);
        match read_varint(page_data, at + 4) {
            Err(e) => Err(e),
            Ok((key, _)) => Ok(
                Cell {
                    offset,
                    left_child_pointer: Some(child),
                    key: u64_to_i64(key),
                    payload: None,
                },
            ),
        }
    }

    /// Decodes the table leaf cell at `at`, with the whole of its payload.
    fn leaf_cell(&self, page_data: &[u8], offset: u16) -> (r: Result<Cell, FormatError>)
        ensures
            match r {
                Ok(c) => spec_leaf_cell(self@, page_data@, offset) == Ok::<CellView, FormatError>(
                    c@,
                ),
                Err(e) => spec_leaf_cell(self@, page_data@, offset) == Err::<
                    CellView,
                    FormatError,
                >(e),
            },
    {
        proof {
            use_type_invariant(self);
        }
        let at = offset as usize;
        let len = page_data.len();
        let (total, n1) = match read_varint(page_data, at) {
            Ok(pair) => pair,
            Err(e) => { return Err(e); },
        };
        proof {
            lemma_varint_bounds(page_data@, at as int);
        }
        let (row_id, n2) = match read_varint(page_data, at + n1) {
            Ok(pair) => pair,
            Err(e) => { return Err(e); },
        };
        proof {
            lemma_varint_bounds(page_data@, at + n1);
        }
        let start: usize = at + n1 + n2;
        let usable: u32 = self.page_size - self.reserved as u32;
        let local = local_size(usable, total);
        if local > (len - start) as u64 {
            return Err(FormatError::BufferTooShort);
        }
        let local_len: usize = local as usize;
        let payload = copy_bytes(page_data, start, local_len);
        let key = u64_to_i64(row_id);
        if local == total {
            return Ok(Cell { offset, left_child_pointer: None, key, payload: Some(payload) });
        }
        if len - start - local_len < 4 {
            return Err(FormatError::BufferTooShort);
        }
        let first = read_be_u32(page_data, start + local_len);
        match self.read_overflow(first, total - local, payload) {
            Err(e) => Err(e),
            Ok(whole) => Ok(
                Cell { offset, left_child_pointer: None, key, payload: Some(whole) },
            ),
        }
    }

    /// Decodes the cells of a table page from the page's bytes, in the order
    /// of the cell pointer array. A leaf cell comes with its whole payload,
    /// overflow pages included.
    pub fn extract_cells(&self, parsed_page: &Page, page_data: &[u8]) -> (r: Result<
        Vec<Cell>,
        OffsetError,
    >)
        ensures
            match r {
                Ok(cells) => spec_extract_cells(self@, parsed_page@, page_data@) == Ok::<
                    Seq<CellView>,
                    OffsetError,
                >(cells_view(cells@)),
                Err(e) => spec_extract_cells(self@, parsed_page@, page_data@) == Err::<
                    Seq<CellView>,
                    OffsetError,
                >(e),
            },
    {
        let leaf = parsed_page.page_type == LEAF_TABLE;
        if !leaf && parsed_page.page_type != INTERIOR_TABLE {
            return Err(OffsetError { offset: 0, error: FormatError::InvalidPageType });
        }
        let mut cells: Vec<Cell> = Vec::new();
        let mut i: usize = 0;
        proof {
            assert(cells_view(cells@) =~= Seq::<CellView>::empty());
        }
        while i < parsed_page.cells.len()
            invariant
                i <= parsed_page.cells@.len(),
                leaf == (parsed_page.page_type == LEAF_TABLE),
                spec_extract_cells(self@, parsed_page@, page_data@) == extract_cells_from(
                    self@,
                    parsed_page@,
                    page_data@,
                    i as nat,
                    cells_view(cells@),
                ),
            decreases parsed_page.cells@.len() - i,
        {
            let at = parsed_page.cells[i];
            let cell = if leaf {
                self.leaf_cell(page_data, at)
            } else {
                BTreeTraverser::interior_cell(page_data, at)
            };
            match cell {
                Err(e) => { return Err(OffsetError { offset: at as usize, error: e }); },
                Ok(c) => {
                    proof {
                        assert(cells_view(cells@.push(c)) =~= cells_view(cells@).push(c@));
                    }
                    cells.push(c);
                },
            }
            i = i + 1;
        }
        Ok(cells)
    }

    /// Decodes page `page_number` from its bytes: header, cell pointer array and cells.
    pub fn parse_page(&self, page_data: &[u8], page_number: u32) -> (r: Result<
        BTreePage,
        OffsetError,
    >)
        ensures
            match r {
                Ok(p) => spec_parse_btree_page(self@, page_data@, page_number) == Ok::<
                    BTreePageView,
                    OffsetError,
                >(p@),
                Err(e) => spec_parse_btree_page(self@, page_data@, page_number) == Err::<
                    BTreePageView,
                    OffsetError,
                >(e),
            },
    {
        let start: usize = if page_number == 1 {
            DATABASE_HEADER_LEN
        } else {
            0
        };
        let parsed_page = match parse_page_at(page_data, start) {
            Ok(p) => p,
            Err(e) => { return Err(OffsetError { offset: start, error: e }); },
        };
        if parsed_page.page_type != LEAF_TABLE && parsed_page.page_type != INTERIOR_TABLE {
            return Err(OffsetError { offset: start, error: FormatError::InvalidPageType });
        }
        let cells = match self.extract_cells(&parsed_page, page_data) {
            Ok(c) => c,
            Err(e) => { return Err(e); },
        };
        Ok(
            BTreePage {
                page_number,
                page_type: parsed_page.page_type,
                cell_count: parsed_page.cell_count,
                cell_content_area: parsed_page.cell_content_area,
                right_most_pointer: parsed_page.right_most_pointer,
                cells,
            },
        )
    }

    /// Reads page `page_number` with its cells.
    pub fn read_page(&self, page_number: u32) -> (r: Result<BTreePage, PageError>)
        ensures
            match r {
                Ok(p) => spec_read_page(self@, page_number) == Ok::<BTreePageView, PageError>(p@),
                Err(e) => spec_read_page(self@, page_number) == Err::<BTreePageView, PageError>(
                    e,
                ),
            },
    {
        let page_data = match self.page_slice(page_number) {
            Some(bytes) => bytes,
            None => {
                return Err(
                    PageError { page: page_number, offset: 0, error: FormatError::PageOutOfRange },
                );
            },
        };
        match self.parse_page(page_data, page_number) {
            Ok(p) => Ok(p),
            Err(e) => Err(PageError { page: page_number, offset: e.offset, error: e.error }),
        }
    }
    /// The number of pages that a walk may visit.
    pub fn budget(&self) -> (r: u64)
        ensures
            r == walk_budget(self@),
            r <= 0xFFFF_FFFF,
    {
        let pages = self.page_count();
        if pages > 0xFFFF_FFFF {
            0xFFFF_FFFF
        } else {
            pages as u64
        }
    }

    /// Reads the shape of page `n`.
    fn read_shape(&self, n: u32) -> (r: Result<Node, PageError>)
        ensures
            match r {
                Ok(node) => spec_read_shape(self@, n) == Ok::<NodeShape, PageError>(shape_of(node)),
                Err(e) => spec_read_shape(self@, n) == Err::<NodeShape, PageError>(e),
            },
    {
        let page_data = match self.page_slice(n) {
            Some(bytes) => bytes,
            None => {
                return Err(PageError { page: n, offset: 0, error: FormatError::PageOutOfRange });
            },
        };
        let start: usize = if n == 1 {
            DATABASE_HEADER_LEN
        } else {
            0
        };
        let page = match parse_page_at(page_data, start) {
            Ok(p) => p,
            Err(e) => { return Err(PageError { page: n, offset: start, error: e }); },
        };
        if page.page_type == LEAF_TABLE {
            Ok(Node::Leaf(page.cell_count))
        } else if page.page_type == INTERIOR_TABLE {
            match self.extract_cells(&page, page_data) {
                Err(e) => Err(PageError { page: n, offset: e.offset, error: e.error }),
                Ok(cells) => Ok(Node::Interior(list_children(&cells, page.right_most_pointer))),
            }
        } else {
            Err(PageError { page: n, offset: start, error: FormatError::InvalidPageType })
        }
    }

    /// Counts the rows of the table b-tree whose root is page `root`. No
    /// leaf cell is decoded and no payload is put together.
    pub fn count_leaf_rows(&self, root: u32) -> (r: Result<u64, PageError>)
        ensures
            match r {
                Ok(n) => spec_count_leaf_rows(self@, root) == Ok::<nat, PageError>(n as nat),
                Err(e) => spec_count_leaf_rows(self@, root) == Err::<nat, PageError>(e),
            },
    {
        let budget = self.budget();
        let mut stack: Vec<u32> = Vec::new();
        stack.push(root);
        let mut fuel: u64 = budget;
        let mut count: u64 = 0;
        while stack.len() > 0
            invariant
                fuel <= budget <= 0xFFFF_FFFF,
                count <= (budget - fuel) * 0xFFFF,
                spec_count_leaf_rows(self@, root) == count_from(
                    self@,
                    stack@,
                    fuel as nat,
                    count as nat,
                ),
            decreases fuel,
        {
            let n = match stack.pop() {
                Some(n) => n,
                None => { return Ok(count); },
            };
            if fuel == 0 {
                return Err(PageError { page: n, offset: 0, error: FormatError::TreeTooLarge });
            }
            match self.read_shape(n) {
                Err(e) => { return Err(e); },
                Ok(Node::Leaf(rows)) => {
                    count = count + rows as u64;
                },
                Ok(Node::Interior(children)) => {
                    push_children(&mut stack, &children);
                },
            }
            fuel = fuel - 1;
        }
        Ok(count)
    }

    /// Reads the rows of the table b-tree whose root is page `root`, in the
    /// order of the tree.
    pub fn scan_rows(&self, root: u32) -> (r: Result<Vec<Row>, PageError>)
        ensures
            match r {
                Ok(rows) => spec_scan_rows(self@, root) == Ok::<Seq<RowView>, PageError>(
                    rows_view(rows@),
                ),
                Err(e) => spec_scan_rows(self@, root) == Err::<Seq<RowView>, PageError>(e),
            },
    {
        let mut stack: Vec<u32> = Vec::new();
        stack.push(root);
        let mut fuel: u64 = self.budget();
        let mut rows: Vec<Row> = Vec::new();
        assert(rows_view(rows@) =~= Seq::<RowView>::empty());
        while stack.len() > 0
            invariant
                spec_scan_rows(self@, root) == scan_from(
                    self@,
                    stack@,
                    fuel as nat,
                    rows_view(rows@),
                ),
            decreases fuel,
        {
            let n = match stack.pop() {
                Some(n) => n,
                None => { return Ok(rows); },
            };
            if fuel == 0 {
                return Err(PageError { page: n, offset: 0, error: FormatError::TreeTooLarge });
            }
            let page = match self.read_page(n) {
                Ok(page) => page,
                Err(e) => { return Err(e); },
            };
            if page.page_type == LEAF_TABLE {
                rows = match decode_rows(&page.cells, rows) {
                    Ok(all) => all,
                    Err(e) => {
                        return Err(PageError { page: n, offset: e.offset, error: e.error });
                    },
                };
            } else if page.page_type == INTERIOR_TABLE {
                let children = list_children(&page.cells, page.right_most_pointer);
                push_children(&mut stack, &children);
            } else {
                let offset: usize = if n == 1 {
                    DATABASE_HEADER_LEN
                } else {
                    0
                };
                return Err(PageError { page: n, offset, error: FormatError::InvalidPageType });
            }
            fuel = fuel - 1;
        }
        Ok(rows)
    }

    /// Counts the rows of the schema table, which has one row for each
    /// table, index, view and trigger of the database.
    pub fn count_tables(&self) -> (r: Result<u64, PageError>)
        ensures
            match r {
                Ok(n) => spec_count_leaf_rows(self@, 1) == Ok::<nat, PageError>(n as nat),
                Err(e) => spec_count_leaf_rows(self@, 1) == Err::<nat, PageError>(e),
            },
    {
        self.count_leaf_rows(1)
    }

    /// Adds to `table_count` the number of rows under page `page_number`,
    /// stopping at the largest value that `table_count` can hold. On an
    /// error `table_count` is left as it was.
    pub fn traverse_btree(&self, page_number: u32, table_count: &mut u64) -> (r: Result<
        (),
        PageError,
    >)
        ensures
            match r {
                Ok(()) => spec_count_leaf_rows(self@, page_number) matches Ok(n)
                    && *final(table_count) == (if *old(table_count) + n > u64::MAX {
                    u64::MAX as int
                } else {
                    *old(table_count) + n
                }),
                Err(e) => spec_count_leaf_rows(self@, page_number) == Err::<nat, PageError>(e)
                    && *final(table_count) == *old(table_count),
            },
    {
        match self.count_leaf_rows(page_number) {
            Err(e) => Err(e),
            Ok(n) => {
                if n > u64::MAX - *table_count {
                    *table_count = u64::MAX;
                } else {
                    *table_count = *table_count + n;
                }
                Ok(())
            },
        }
    }
}

/// A b-tree store: the owner of a handle on a database.
#[derive(Debug)]
pub struct BTree {
    traverser: BTreeTraverser,
}

impl View for BTree {
    type V = Database;

    closed spec fn view(&self) -> Database {
        self.traverser@
    }
}

impl BTree {
    /// A store over the database of `traverser`.
    pub fn new(traverser: BTreeTraverser) -> (r: BTree)
        ensures
            r@ == traverser@,
    {
        BTree { traverser }
    }

    /// The handle on the database.
    pub fn traverser(&self) -> (r: &BTreeTraverser)
        ensures
            r@ == self@,
    {
        &self.traverser
    }
}

} // verus!
