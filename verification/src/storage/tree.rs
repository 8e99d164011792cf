//! The walk over a table b-tree, seen as a tree: what the rows of a subtree
//! are, and that the walk with its stack of pages yields exactly them.

use crate::errors::{OffsetError, PageError};
use crate::storage::btree::{
    children_of, count_from, extract_cells_from, has_page, local_payload_size, overflow_from,
    page_bytes, page_header_start, rows_from, scan_from, spec_count_leaf_rows,
    spec_interior_cell, spec_leaf_cell, spec_read_page, spec_read_shape, spec_scan_rows,
    valid_page_size, walk_budget, CellView, Database, NodeShape, RowView,
};
use crate::storage::page::{be_u32, spec_parse_page, PageView, INTERIOR_TABLE, LEAF_TABLE};
use crate::storage::record::spec_decode_record;
use crate::storage::varint::{lemma_varint_bounds, spec_read_varint};
use vstd::prelude::*;

verus! {

/// The rows of the subtree whose root is page `n`, depth first and left to
/// right, together with the number of pages in the subtree; `None` where a
/// page of it does not read as a table page, or where the subtree has more
/// than `depth` levels.
pub open spec fn subtree_rows(db: Database, n: u32, depth: nat) -> Option<(Seq<RowView>, nat)>
    decreases depth, 0nat,
{
    if depth == 0 {
        None
    } else {
        match spec_read_page(db, n) {
            Err(_) => None,
            Ok(page) => {
                if page.page_type == LEAF_TABLE {
                    match rows_from(page.cells, 0, Seq::empty()) {
                        Err(_) => None,
                        Ok(rows) => Some((rows, 1)),
                    }
                } else if page.page_type == INTERIOR_TABLE {
                    match forest_rows(
                        db,
                        children_of(page.cells, page.right_most_pointer),
                        (depth - 1) as nat,
                    ) {
                        None => None,
                        Some((rows, pages)) => Some((rows, pages + 1)),
                    }
                } else {
                    None
                }
            },
        }
    }
}

/// The rows of the subtrees whose roots are `roots`, one subtree after the
/// other, together with the number of pages in all of them.
pub open spec fn forest_rows(db: Database, roots: Seq<u32>, depth: nat) -> Option<
    (Seq<RowView>, nat),
>
    decreases depth, roots.len() + 1,
{
    if roots.len() == 0 {
        Some((Seq::empty(), 0))
    } else {
        match subtree_rows(db, roots[0], depth) {
            None => None,
            Some((first, pages)) => match forest_rows(db, roots.skip(1), depth) {
                None => None,
                Some((rest, more)) => Some((first + rest, pages + more)),
            },
        }
    }
}

/// The rows of a subtree or of a forest that read without fault.
pub open spec fn rows_of(read: Option<(Seq<RowView>, nat)>) -> Seq<RowView> {
    match read {
        Some((rows, _)) => rows,
        None => Seq::empty(),
    }
}

/// The number of pages of a subtree or of a forest that read without fault.
pub open spec fn pages_of(read: Option<(Seq<RowView>, nat)>) -> nat {
    match read {
        Some((_, pages)) => pages,
        None => 0,
    }
}

/// Rows that decode behind `acc` are the rows that decode behind nothing, put behind `acc`.
proof fn lemma_rows_behind(cells: Seq<CellView>, i: nat, acc: Seq<RowView>)
    ensures
        match rows_from(cells, i, Seq::empty()) {
            Ok(rows) => rows_from(cells, i, acc) == Ok::<Seq<RowView>, OffsetError>(acc + rows),
            Err(e) => rows_from(cells, i, acc) == Err::<Seq<RowView>, OffsetError>(e),
        },
    decreases cells.len() - i,
{
    lemma_rows_shift(cells, i, Seq::empty(), acc);
    match rows_from(cells, i, Seq::empty()) {
        Ok(rows) => {
        },
        Err(_) => {},
    }
}

/// Putting `front` before the rows decoded so far puts it before the result.
pub proof fn lemma_rows_shift(cells: Seq<CellView>, i: nat, acc: Seq<RowView>, front: Seq<RowView>)
    ensures
        match rows_from(cells, i, acc) {
            Ok(rows) => rows_from(cells, i, front + acc) == Ok::<Seq<RowView>, OffsetError>(
                front + rows,
            ),
            Err(e) => rows_from(cells, i, front + acc) == Err::<Seq<RowView>, OffsetError>(e),
        },
    decreases cells.len() - i,
{
    if i < cells.len() {
        match cells[i as int].payload {
            None => {},
            Some(payload) => match spec_decode_record(payload) {
                Err(_) => {},
                Ok(values) => {
                    let row = RowView { row_id: cells[i as int].key, values };
                    lemma_rows_shift(cells, i + 1, acc.push(row), front);
                },
            },
        }
    }
}

/// The walk over a subtree that reads without fault, with fuel for its
/// pages, goes on behind it with the subtree's rows added and the fuel for
/// its pages spent.
pub proof fn lemma_walk_over_subtree(
    db: Database,
    n: u32,
    depth: nat,
    rest: Seq<u32>,
    fuel: nat,
    acc: Seq<RowView>,
)
    requires
        subtree_rows(db, n, depth) is Some,
        pages_of(subtree_rows(db, n, depth)) <= fuel,
    ensures
        scan_from(db, rest.push(n), fuel, acc) == scan_from(
            db,
            rest,
            (fuel - pages_of(subtree_rows(db, n, depth))) as nat,
            acc + rows_of(subtree_rows(db, n, depth)),
        ),
    decreases depth, 0nat,
{
    let stack = rest.push(n);
    assert(stack.drop_last() =~= rest);
    let page = spec_read_page(db, n)->Ok_0;
    if page.page_type == LEAF_TABLE {
        lemma_rows_behind(page.cells, 0, acc);
    } else {
        let children = children_of(page.cells, page.right_most_pointer);
        lemma_walk_over_forest(db, children, (depth - 1) as nat, rest, (fuel - 1) as nat, acc);
    }
}

/// The walk over subtrees that read without fault, the first of them on top
/// of the stack, goes on behind them with their rows added.
pub proof fn lemma_walk_over_forest(
    db: Database,
    roots: Seq<u32>,
    depth: nat,
    rest: Seq<u32>,
    fuel: nat,
    acc: Seq<RowView>,
)
    requires
        forest_rows(db, roots, depth) is Some,
        pages_of(forest_rows(db, roots, depth)) <= fuel,
    ensures
        scan_from(db, rest + roots.reverse(), fuel, acc) == scan_from(
            db,
            rest,
            (fuel - pages_of(forest_rows(db, roots, depth))) as nat,
            acc + rows_of(forest_rows(db, roots, depth)),
        ),
    decreases depth, roots.len() + 1,
{
    if roots.len() == 0 {
    } else {
        let tail = roots.skip(1);
        let (first, pages) = subtree_rows(db, roots[0], depth)->0;
        let (others, more) = forest_rows(db, tail, depth)->0;
        let below = rest + tail.reverse();
        assert(rest + roots.reverse() =~= below.push(roots[0]));
        lemma_walk_over_subtree(db, roots[0], depth, below, fuel, acc);
        lemma_walk_over_forest(db, tail, depth, rest, (fuel - pages) as nat, acc + first);
        assert((acc + first) + others =~= acc + (first + others));
    }
}

/// Depth first, left to right: where the tree under `root` reads without
/// fault and has no more pages than the file, scanning it gives the rows of
/// its leaves from left to right, each leaf's rows in the order of its cell
/// pointer array.
pub proof fn lemma_scan_is_depth_first(db: Database, root: u32, depth: nat)
    requires
        subtree_rows(db, root, depth) is Some,
        pages_of(subtree_rows(db, root, depth)) <= walk_budget(db),
    ensures
        spec_scan_rows(db, root) == Ok::<Seq<RowView>, PageError>(
            rows_of(subtree_rows(db, root, depth)),
        ),
{
    let rows = rows_of(subtree_rows(db, root, depth));
    lemma_walk_over_subtree(db, root, depth, Seq::empty(), walk_budget(db), Seq::empty());
}

/// A database with a page size of the format and with reserved space that
/// one byte can state.
pub open spec fn database_wf(db: Database) -> bool {
    valid_page_size(db.page_size) && db.reserved <= 255
}

/// An overflow chain that is read to its end adds exactly the bytes that
/// were missing.
proof fn lemma_overflow_length(
    db: Database,
    next: u32,
    remaining: nat,
    visited: Set<u32>,
    acc: Seq<u8>,
)
    requires
        database_wf(db),
    ensures
        overflow_from(db, next, remaining, visited, acc) matches Ok(bytes) ==> bytes.len()
            == acc.len() + remaining,
    decreases remaining,
{
    if remaining != 0 && next != 0 && !visited.contains(next) && has_page(db, next) {
        let size = db.page_size as int;
        assert((next - 1) * size + size == next * size) by (nonlinear_arith);
        assert(0 <= (next - 1) * size) by (nonlinear_arith)
            requires
                next >= 1,
                size > 0,
        ;
        let page = page_bytes(db, next);
        let take = if remaining <= size - 4 {
            remaining
        } else {
            (size - 4) as nat
        };
        lemma_overflow_length(
            db,
            be_u32(page, 0),
            (remaining - take) as nat,
            visited.insert(next),
            acc + page.subrange(4, 4 + take as int),
        );
    }
}

/// Overflow assembly is complete: the payload of a leaf cell that reads
/// without fault has exactly the length that the cell declares, however
/// many overflow pages it runs over.
pub proof fn lemma_payload_is_complete(db: Database, page: Seq<u8>, at: u16)
    requires
        database_wf(db),
    ensures
        spec_leaf_cell(db, page, at) matches Ok(cell) ==> {
            &&& cell.payload is Some
            &&& spec_read_varint(page, at as int) is Ok
            &&& cell.payload->Some_0.len() == spec_read_varint(page, at as int)->Ok_0.0
        },
{
    match spec_read_varint(page, at as int) {
        Err(_) => {},
        Ok((total, n1)) => match spec_read_varint(page, at + n1) {
            Err(_) => {},
            Ok((row_id, n2)) => {
                lemma_varint_bounds(page, at as int);
                lemma_varint_bounds(page, at + n1);
                let start = at + n1 + n2;
                let local = local_payload_size((db.page_size - db.reserved) as nat, total);
                if start + local <= page.len() && local != total && start + local + 4
                    <= page.len() {
                    lemma_overflow_length(
                        db,
                        be_u32(page, start + local),
                        (total - local) as nat,
                        Set::empty(),
                        page.subrange(start, start + local),
                    );
                }
            },
        },
    }
}

/// Extraction gives one cell for each cell pointer.
proof fn lemma_extracted_count(
    db: Database,
    page: PageView,
    bytes: Seq<u8>,
    i: nat,
    acc: Seq<CellView>,
)
    requires
        i <= page.cells.len(),
    ensures
        extract_cells_from(db, page, bytes, i, acc) matches Ok(cells) ==> cells.len() == acc.len()
            + page.cells.len() - i,
    decreases page.cells.len() - i,
{
    if i < page.cells.len() {
        let cell = if page.page_type == LEAF_TABLE {
            spec_leaf_cell(db, bytes, page.cells[i as int])
        } else {
            spec_interior_cell(bytes, page.cells[i as int])
        };
        match cell {
            Err(_) => {},
            Ok(c) => {
                lemma_extracted_count(db, page, bytes, i + 1, acc.push(c));
            },
        }
    }
}

/// Decoding gives one row for each cell.
proof fn lemma_decoded_count(cells: Seq<CellView>, i: nat, acc: Seq<RowView>)
    requires
        i <= cells.len(),
    ensures
        rows_from(cells, i, acc) matches Ok(rows) ==> rows.len() == acc.len() + cells.len() - i,
    decreases cells.len() - i,
{
    if i < cells.len() {
        match cells[i as int].payload {
            None => {},
            Some(payload) => match spec_decode_record(payload) {
                Err(_) => {},
                Ok(values) => {
                    lemma_decoded_count(
                        cells,
                        i + 1,
                        acc.push(RowView { row_id: cells[i as int].key, values }),
                    );
                },
            },
        }
    }
}

/// A page that reads with its cells has the shape that counting reads of
/// it: a leaf with as many rows as it has cells, or an interior page with
/// the same children.
proof fn lemma_shape_of_page(db: Database, n: u32)
    ensures
        spec_read_page(db, n) matches Ok(page) ==> {
            &&& page.page_type == LEAF_TABLE || page.page_type == INTERIOR_TABLE
            &&& page.page_type == LEAF_TABLE ==> spec_read_shape(db, n) == Ok::<
                NodeShape,
                PageError,
            >(NodeShape::Leaf(page.cells.len()))
            &&& page.page_type == INTERIOR_TABLE ==> spec_read_shape(db, n) == Ok::<
                NodeShape,
                PageError,
            >(NodeShape::Interior(children_of(page.cells, page.right_most_pointer)))
        },
{
    if spec_read_page(db, n) is Ok {
        let bytes = page_bytes(db, n);
        let parsed = spec_parse_page(bytes, page_header_start(n))->Ok_0;
        lemma_extracted_count(db, parsed, bytes, 0, Seq::empty());
    }
}

/// Where the walk that scans succeeds, the walk that counts counts its rows.
proof fn lemma_count_follows_scan(
    db: Database,
    stack: Seq<u32>,
    fuel: nat,
    acc: Seq<RowView>,
    count: nat,
)
    ensures
        scan_from(db, stack, fuel, acc) matches Ok(rows) ==> rows.len() >= acc.len() && count_from(
            db,
            stack,
            fuel,
            count,
        ) == Ok::<nat, PageError>((count + rows.len() - acc.len()) as nat),
    decreases fuel,
{
    if stack.len() > 0 && fuel > 0 {
        let n = stack.last();
        lemma_shape_of_page(db, n);
        match spec_read_page(db, n) {
            Err(_) => {},
            Ok(page) => {
                if page.page_type == LEAF_TABLE {
                    lemma_decoded_count(page.cells, 0, acc);
                    match rows_from(page.cells, 0, acc) {
                        Err(_) => {},
                        Ok(rows) => {
                            lemma_count_follows_scan(
                                db,
                                stack.drop_last(),
                                (fuel - 1) as nat,
                                rows,
                                count + page.cells.len(),
                            );
                        },
                    }
                } else {
                    lemma_count_follows_scan(
                        db,
                        stack.drop_last() + children_of(
                            page.cells,
                            page.right_most_pointer,
                        ).reverse(),
                        (fuel - 1) as nat,
                        acc,
                        count,
                    );
                }
            },
        }
    }
}

/// Counting agrees with scanning: where the rows of a tree can be read,
/// counting the tree gives their number.
pub proof fn lemma_count_agrees_with_scan(db: Database, root: u32)
    ensures
        spec_scan_rows(db, root) matches Ok(rows) ==> spec_count_leaf_rows(db, root) == Ok::<
            nat,
            PageError,
        >(rows.len()),
{
    lemma_count_follows_scan(db, seq![root], walk_budget(db), Seq::empty(), 0);
}

} // verus!
