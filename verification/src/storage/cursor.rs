//! Scanning a table row by row: a cursor that reads a leaf when its rows
//! are asked for, so that a scan can stop early.

use crate::errors::{FormatError, PageError};
use crate::storage::btree::{
    children_of, decode_rows, list_children, page_header_start, push_children, rows_from,
    rows_view, scan_from, spec_read_page, spec_scan_rows, walk_budget, BTreeTraverser, Database,
    Row, RowView,
};
use crate::storage::page::{DATABASE_HEADER_LEN, INTERIOR_TABLE, LEAF_TABLE};
use vstd::prelude::*;

verus! {

/// What a scan hands out: rows, and then the fault that ended it, where one did.
pub struct Trace {
    pub rows: Seq<RowView>,
    pub failure: Option<PageError>,
}

/// What the walk over the pages of `stack` hands out behind the rows `acc`:
/// the rows of every leaf up to the first page that does not read, and that
/// page's fault.
pub open spec fn trace_from(db: Database, stack: Seq<u32>, fuel: nat, acc: Seq<RowView>) -> Trace
    decreases fuel,
{
    if stack.len() == 0 {
        Trace { rows: acc, failure: None }
    } else if fuel == 0 {
        Trace {
            rows: acc,
            failure: Some(
                PageError { page: stack.last(), offset: 0, error: FormatError::TreeTooLarge },
            ),
        }
    } else {
        match spec_read_page(db, stack.last()) {
            Err(e) => Trace { rows: acc, failure: Some(e) },
            Ok(page) => {
                if page.page_type == LEAF_TABLE {
                    match rows_from(page.cells, 0, acc) {
                        Err(e) => Trace {
                            rows: acc,
                            failure: Some(
                                PageError { page: stack.last(), offset: e.offset, error: e.error },
                            ),
                        },
                        Ok(rows) => trace_from(db, stack.drop_last(), (fuel - 1) as nat, rows),
                    }
                } else if page.page_type == INTERIOR_TABLE {
                    trace_from(
                        db,
                        stack.drop_last() + children_of(
                            page.cells,
                            page.right_most_pointer,
                        ).reverse(),
                        (fuel - 1) as nat,
                        acc,
                    )
                } else {
                    Trace {
                        rows: acc,
                        failure: Some(
                            PageError {
                                page: stack.last(),
                                offset: page_header_start(stack.last()) as usize,
                                error: FormatError::InvalidPageType,
                            },
                        ),
                    }
                }
            },
        }
    }
}

/// What scanning the table b-tree under `root` row by row hands out.
pub open spec fn spec_scan_table(db: Database, root: u32) -> Trace {
    trace_from(db, seq![root], walk_budget(db), Seq::empty())
}

/// What a scan that collects gives for a trace: the rows, or the fault.
pub open spec fn collected(trace: Trace) -> Result<Seq<RowView>, PageError> {
    match trace.failure {
        Some(e) => Err(e),
        None => Ok(trace.rows),
    }
}

/// Rows that were there before stay in front of what the walk hands out.
proof fn lemma_trace_shift(
    db: Database,
    stack: Seq<u32>,
    fuel: nat,
    acc: Seq<RowView>,
    front: Seq<RowView>,
)
    ensures
        trace_from(db, stack, fuel, front + acc) == (Trace {
            rows: front + trace_from(db, stack, fuel, acc).rows,
            failure: trace_from(db, stack, fuel, acc).failure,
        }),
    decreases fuel,
{
    if stack.len() > 0 && fuel > 0 {
        match spec_read_page(db, stack.last()) {
            Err(_) => {},
            Ok(page) => {
                if page.page_type == LEAF_TABLE {
                    crate::storage::tree::lemma_rows_shift(page.cells, 0, acc, front);
                    match rows_from(page.cells, 0, acc) {
                        Err(_) => {},
                        Ok(rows) => {
                            lemma_trace_shift(
                                db,
                                stack.drop_last(),
                                (fuel - 1) as nat,
                                rows,
                                front,
                            );
                        },
                    }
                } else if page.page_type == INTERIOR_TABLE {
                    lemma_trace_shift(
                        db,
                        stack.drop_last() + children_of(
                            page.cells,
                            page.right_most_pointer,
                        ).reverse(),
                        (fuel - 1) as nat,
                        acc,
                        front,
                    );
                }
            },
        }
    }
}

/// A scan that collects gives what the walk hands out row by row.
proof fn lemma_collected_trace(db: Database, stack: Seq<u32>, fuel: nat, acc: Seq<RowView>)
    ensures
        scan_from(db, stack, fuel, acc) == collected(trace_from(db, stack, fuel, acc)),
    decreases fuel,
{
    if stack.len() > 0 && fuel > 0 {
        match spec_read_page(db, stack.last()) {
            Err(_) => {},
            Ok(page) => {
                if page.page_type == LEAF_TABLE {
                    match rows_from(page.cells, 0, acc) {
                        Err(_) => {},
                        Ok(rows) => {
                            lemma_collected_trace(db, stack.drop_last(), (fuel - 1) as nat, rows);
                        },
                    }
                } else if page.page_type == INTERIOR_TABLE {
                    lemma_collected_trace(
                        db,
                        stack.drop_last() + children_of(
                            page.cells,
                            page.right_most_pointer,
                        ).reverse(),
                        (fuel - 1) as nat,
                        acc,
                    );
                }
            },
        }
    }
}

/// Scanning row by row and scanning at once agree: the rows that
/// `scan_rows` collects are the rows that `scan_table` hands out, and it
/// fails with the fault that ends them.
pub proof fn lemma_scan_rows_collects_scan_table(db: Database, root: u32)
    ensures
        spec_scan_rows(db, root) == collected(spec_scan_table(db, root)),
{
    lemma_collected_trace(db, seq![root], walk_budget(db), Seq::empty());
}

/// A scan in progress over one database.
#[derive(Debug)]
pub struct RowCursor<'a> {
    db: &'a BTreeTraverser,
    stack: Vec<u32>,
    fuel: u64,
    pending: Vec<Row>,
}

/// Turns `rows` round.
fn reversed(rows: Vec<Row>) -> (r: Vec<Row>)
    ensures
        rows_view(r@) == rows_view(rows@).reverse(),
{
    let mut from = rows;
    let mut to: Vec<Row> = Vec::new();
    let ghost all = rows_view(from@);
    while from.len() > 0
        invariant
            rows_view(from@).len() + rows_view(to@).len() == all.len(),
            rows_view(from@) == all.take(from@.len() as int),
            forall|i: int|
                0 <= i < to@.len() ==> #[trigger] rows_view(to@)[i] == all[all.len() - 1 - i],
        decreases from@.len(),
    {
        let ghost before = from@;
        let row = match from.pop() {
            Some(row) => row,
            None => { return to; },
        };
        assert(row@ == rows_view(before)[before.len() - 1]);
        proof {
            assert(rows_view(to@.push(row)) =~= rows_view(to@).push(row@));
        }
        to.push(row);
    }
    to
}

/// What one step of a scan came to.
enum Step {
    /// A page was read; the scan goes on.
    Advanced,
    /// No page is left.
    Done,
    /// A page did not read.
    Failed(PageError),
}

impl<'a> RowCursor<'a> {
    /// The database that is scanned.
    pub closed spec fn database(&self) -> Database {
        self.db@
    }

    /// What the cursor has still to hand out.
    pub closed spec fn rest(&self) -> Trace {
        trace_from(self.db@, self.stack@, self.fuel as nat, rows_view(self.pending@).reverse())
    }

    /// Takes the next of the rows that have been read, where there is one.
    fn take_pending(&mut self) -> (r: Option<Row>)
        ensures
            final(self).db == old(self).db,
            final(self).fuel == old(self).fuel,
            match r {
                Some(row) => old(self).rest().rows.len() > 0 && row@ == old(self).rest().rows[0]
                    && final(self).rest() == (Trace {
                    rows: old(self).rest().rows.skip(1),
                    failure: old(self).rest().failure,
                }),
                None => final(self).pending@.len() == 0 && final(self).stack == old(self).stack
                    && final(self).rest() == old(self).rest(),
            },
    {
        let ghost waiting = rows_view(self.pending@);
        match self.pending.pop() {
            Some(row) => {
                proof {
                    let ahead = rows_view(self.pending@).reverse();
                    assert(waiting.reverse() =~= seq![row@] + ahead);
                    lemma_trace_shift(self.db@, self.stack@, self.fuel as nat, ahead, seq![row@]);
                    let t = trace_from(self.db@, self.stack@, self.fuel as nat, ahead);
                    assert((seq![row@] + t.rows).skip(1) =~= t.rows);
                }
                Some(row)
            },
            None => None,
        }
    }

    /// Ends the scan: nothing is handed out after this.
    fn finish(&mut self)
        requires
            old(self).pending@.len() == 0,
        ensures
            final(self).db == old(self).db,
            final(self).rest() == (Trace { rows: Seq::empty(), failure: None }),
    {
        self.stack = Vec::new();
    }

    /// Visits the next page, with no row waiting: reads a leaf's rows, or
    /// puts an interior page's children on the stack.
    fn step(&mut self) -> (r: Step)
        requires
            old(self).pending@.len() == 0,
        ensures
            final(self).db == old(self).db,
            match r {
                Step::Advanced => final(self).rest() == old(self).rest() && final(self).fuel < old(
                    self,
                ).fuel,
                Step::Done => old(self).rest() == (Trace { rows: Seq::empty(), failure: None })
                    && final(self).rest() == old(self).rest(),
                Step::Failed(e) => old(self).rest() == (Trace {
                    rows: Seq::empty(),
                    failure: Some(e),
                }) && final(self).rest() == (Trace { rows: Seq::empty(), failure: None }),
            },
    {
        let n = match self.stack.pop() {
            Some(n) => n,
            None => { return Step::Done; },
        };
        if self.fuel == 0 {
            self.finish();
            return Step::Failed(
                PageError { page: n, offset: 0, error: FormatError::TreeTooLarge },
            );
        }
        let page = match self.db.read_page(n) {
            Ok(page) => page,
            Err(e) => {
                self.finish();
                return Step::Failed(e);
            },
        };
        if page.page_type == LEAF_TABLE {
            assert(rows_view(Seq::<Row>::empty()) =~= Seq::<RowView>::empty());
            match decode_rows(&page.cells, Vec::new()) {
                Ok(rows) => {
                    self.pending = reversed(rows);
                    assert(rows_view(self.pending@).reverse() =~= rows_view(rows@));
                },
                Err(e) => {
                    self.finish();
                    return Step::Failed(
                        PageError { page: n, offset: e.offset, error: e.error },
                    );
                },
            }
        } else if page.page_type == INTERIOR_TABLE {
            let children = list_children(&page.cells, page.right_most_pointer);
            push_children(&mut self.stack, &children);
        } else {
            let offset: usize = if n == 1 {
                DATABASE_HEADER_LEN
            } else {
                0
            };
            self.finish();
            return Step::Failed(
                PageError { page: n, offset, error: FormatError::InvalidPageType },
            );
        }
        self.fuel = self.fuel - 1;
        Step::Advanced
    }

    /// Hands out the next row of the scan; the fault that ends the scan,
    /// once, where one does; and `None` from then on and after the last row.
    pub fn next_row(&mut self) -> (r: Option<Result<Row, PageError>>)
        ensures
            final(self).database() == old(self).database(),
            match r {
                Some(Ok(row)) => old(self).rest().rows.len() > 0 && row@ == old(self).rest().rows[0]
                    && final(self).rest() == (Trace {
                    rows: old(self).rest().rows.skip(1),
                    failure: old(self).rest().failure,
                }),
                Some(Err(e)) => old(self).rest() == (Trace {
                    rows: Seq::empty(),
                    failure: Some(e),
                }) && final(self).rest() == (Trace { rows: Seq::empty(), failure: None }),
                None => old(self).rest() == (Trace { rows: Seq::empty(), failure: None })
                    && final(self).rest() == old(self).rest(),
            },
    {
        loop
            invariant
                self.db == old(self).db,
                self.rest() == old(self).rest(),
            decreases self.fuel,
        {
            match self.take_pending() {
                Some(row) => { return Some(Ok(row)); },
                None => {},
            }
            match self.step() {
                Step::Advanced => {},
                Step::Done => { return None; },
                Step::Failed(e) => { return Some(Err(e)); },
            }
        }
    }
}

impl BTreeTraverser {
    /// Starts a scan of the table b-tree whose root is page `root`. No page
    /// is read before the first row is asked for. A scan holds no state but
    /// its own: scanning the same root again gives the same rows.
    pub fn scan_table(&self, root: u32) -> (cursor: RowCursor<'_>)
        ensures
            cursor.database() == self@,
            cursor.rest() == spec_scan_table(self@, root),
    {
        let mut stack: Vec<u32> = Vec::new();
        stack.push(root);
        let pending: Vec<Row> = Vec::new();
        RowCursor { db: self, stack, fuel: self.budget(), pending }
    }
}

} // verus!
