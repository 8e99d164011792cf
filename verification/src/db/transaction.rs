//! The bookkeeping of transactions: how deep they are nested, which
//! savepoints are set, and which statement each step asks the connection for.

use crate::errors::TransactionError;
use vstd::prelude::*;
use vstd::string::StringExecFns;

verus! {

/// The statement that a step of a transaction asks the connection to carry out.
#[derive(Debug, PartialEq, Eq)]
pub enum TransactionStatement {
    Begin,
    Commit,
    Rollback,
    Savepoint(String),
    ReleaseSavepoint(String),
    RollbackToSavepoint(String),
}

/// A statement as a mathematical value.
pub enum TransactionStatementView {
    Begin,
    Commit,
    Rollback,
    Savepoint(Seq<char>),
    ReleaseSavepoint(Seq<char>),
    RollbackToSavepoint(Seq<char>),
}

impl View for TransactionStatement {
    type V = TransactionStatementView;

    open spec fn view(&self) -> TransactionStatementView {
        match self {
            TransactionStatement::Begin => TransactionStatementView::Begin,
            TransactionStatement::Commit => TransactionStatementView::Commit,
            TransactionStatement::Rollback => TransactionStatementView::Rollback,
            TransactionStatement::Savepoint(n) => TransactionStatementView::Savepoint(n@),
            TransactionStatement::ReleaseSavepoint(n) => TransactionStatementView::ReleaseSavepoint(
                n@,
            ),
            TransactionStatement::RollbackToSavepoint(n) => {
                TransactionStatementView::RollbackToSavepoint(n@)
            },
        }
    }
}

/// The text of a statement.
pub open spec fn statement_text(statement: TransactionStatementView) -> Seq<char> {
    match statement {
        TransactionStatementView::Begin => "BEGIN TRANSACTION"@,
        TransactionStatementView::Commit => "COMMIT"@,
        TransactionStatementView::Rollback => "ROLLBACK"@,
        TransactionStatementView::Savepoint(n) => "SAVEPOINT "@ + n,
        TransactionStatementView::ReleaseSavepoint(n) => "RELEASE SAVEPOINT "@ + n,
        TransactionStatementView::RollbackToSavepoint(n) => "ROLLBACK TO SAVEPOINT "@ + n,
    }
}

impl TransactionStatement {
    /// The text of the statement, as the connection takes it.
    pub fn sql(&self) -> (r: String)
        ensures
            r@ == statement_text(self@),
    {
        match self {
            TransactionStatement::Begin => "BEGIN TRANSACTION".to_owned(),
            TransactionStatement::Commit => "COMMIT".to_owned(),
            TransactionStatement::Rollback => "ROLLBACK".to_owned(),
            TransactionStatement::Savepoint(n) => "SAVEPOINT ".to_owned().concat(n.as_str()),
            TransactionStatement::ReleaseSavepoint(n) => "RELEASE SAVEPOINT ".to_owned().concat(
                n.as_str(),
            ),
            TransactionStatement::RollbackToSavepoint(n) => {
                "ROLLBACK TO SAVEPOINT ".to_owned().concat(n.as_str())
            },
        }
    }
}

/// The savepoints that a list of settings leaves: each name with the depth
/// that it was last set at.
pub open spec fn savepoints_of(entries: Seq<(String, usize)>) -> Map<Seq<char>, nat>
    decreases entries.len(),
{
    if entries.len() == 0 {
        Map::empty()
    } else {
        savepoints_of(entries.drop_last()).insert(entries.last().0@, entries.last().1 as nat)
    }
}

/// A name that no entry has is no savepoint; a name whose last entry is
/// `entries[i]` is a savepoint at that entry's depth.
proof fn lemma_savepoint_lookup(entries: Seq<(String, usize)>, name: Seq<char>, i: int)
    requires
        -1 <= i < entries.len(),
        i >= 0 ==> entries[i].0@ == name,
        forall|j: int| i < j < entries.len() ==> (#[trigger] entries[j]).0@ != name,
    ensures
        i < 0 ==> !savepoints_of(entries).dom().contains(name),
        i >= 0 ==> savepoints_of(entries).dom().contains(name) && savepoints_of(entries)[name]
            == entries[i].1,
    decreases entries.len(),
{
    if entries.len() > 0 {
        if i < entries.len() - 1 {
            lemma_savepoint_lookup(entries.drop_last(), name, i);
        }
    }
}

/// Taking out an entry of a name changes nothing for the other names.
proof fn lemma_savepoint_removed(entries: Seq<(String, usize)>, k: int, name: Seq<char>)
    requires
        0 <= k < entries.len(),
        entries[k].0@ == name,
    ensures
        savepoints_of(entries.remove(k)).remove(name) == savepoints_of(entries).remove(name),
    decreases entries.len(),
{
    let rest = entries.drop_last();
    if k == entries.len() - 1 {
        assert(entries.remove(k) =~= rest);
        assert(savepoints_of(rest).remove(name) =~= savepoints_of(entries).remove(name));
    } else {
        lemma_savepoint_removed(rest, k, name);
        assert(entries.remove(k).drop_last() =~= rest.remove(k));
        assert(entries.remove(k).last() == entries.last());
        let a = savepoints_of(rest.remove(k));
        let b = savepoints_of(rest);
        let key = entries.last().0@;
        let depth = entries.last().1 as nat;
        let left = savepoints_of(entries.remove(k)).remove(name);
        let right = savepoints_of(entries).remove(name);
        assert(savepoints_of(entries.remove(k)) == a.insert(key, depth));
        assert(savepoints_of(entries) == b.insert(key, depth));
        assert forall|x: Seq<char>| #[trigger] left.dom().contains(x) == right.dom().contains(
            x,
        ) by {
            if x != name && x != key {
                assert(a.remove(name).dom().contains(x) == a.dom().contains(x));
                assert(b.remove(name).dom().contains(x) == b.dom().contains(x));
            }
        }
        assert forall|x: Seq<char>| left.dom().contains(x) implies #[trigger] left[x]
            == right[x] by {
            if x != key {
                assert(a.remove(name).dom().contains(x));
                assert(a.remove(name)[x] == a[x]);
                assert(b.remove(name)[x] == b[x]);
            }
        }
        assert(left =~= right);
    }
}

/// The state of a transaction: its depth of nesting and its savepoints.
#[derive(Debug)]
pub struct Transaction {
    savepoints: Vec<(String, usize)>,
    transaction_depth: usize,
}

impl Transaction {
    /// How deep the transaction is nested; 0 where none is active.
    pub closed spec fn depth(&self) -> nat {
        self.transaction_depth as nat
    }

    /// The savepoints that are set, each with the depth it was set at.
    pub closed spec fn savepoints(&self) -> Map<Seq<char>, nat> {
        savepoints_of(self.savepoints@)
    }

    /// The state before any transaction: depth 0 and no savepoint.
    pub fn new() -> (r: Transaction)
        ensures
            r.depth() == 0,
            r.savepoints() == Map::<Seq<char>, nat>::empty(),
    {
        Transaction { savepoints: Vec::new(), transaction_depth: 0 }
    }

    /// Goes one level deeper. The outermost level asks for `Begin`.
    pub fn begin_transaction(&mut self) -> (r: Option<TransactionStatement>)
        requires
            old(self).depth() < usize::MAX,
        ensures
            final(self).depth() == old(self).depth() + 1,
            final(self).savepoints() == old(self).savepoints(),
            old(self).depth() == 0 ==> (r matches Some(s) && s@ == TransactionStatementView::Begin),
            old(self).depth() != 0 ==> r is None,
    {
        self.transaction_depth = self.transaction_depth + 1;
        if self.transaction_depth == 1 {
            Some(TransactionStatement::Begin)
        } else {
            None
        }
    }

    /// Comes one level back up. Leaving the outermost level asks for
    /// `Commit`. Without an active transaction nothing changes.
    pub fn commit_transaction(&mut self) -> (r: Result<
        Option<TransactionStatement>,
        TransactionError,
    >)
        ensures
            final(self).savepoints() == old(self).savepoints(),
            old(self).depth() == 0 ==> (r matches Err(e) && e
                == TransactionError::NoActiveTransaction) && final(self).depth() == 0,
            old(self).depth() == 1 ==> (r matches Ok(Some(s)) && s@
                == TransactionStatementView::Commit) && final(self).depth() == 0,
            old(self).depth() > 1 ==> r matches Ok(None),
            old(self).depth() > 1 ==> final(self).depth() == old(self).depth() - 1,
    {
        if self.transaction_depth == 0 {
            return Err(TransactionError::NoActiveTransaction);
        }
        self.transaction_depth = self.transaction_depth - 1;
        if self.transaction_depth == 0 {
            Ok(Some(TransactionStatement::Commit))
        } else {
            Ok(None)
        }
    }

    /// Leaves every level at once and asks for `Rollback`. Without an
    /// active transaction nothing changes.
    pub fn rollback_transaction(&mut self) -> (r: Result<TransactionStatement, TransactionError>)
        ensures
            final(self).savepoints() == old(self).savepoints(),
            final(self).depth() == 0,
            old(self).depth() == 0 ==> (r matches Err(e) && e
                == TransactionError::NoActiveTransaction),
            old(self).depth() != 0 ==> (r matches Ok(s) && s@
                == TransactionStatementView::Rollback),
    {
        if self.transaction_depth == 0 {
            return Err(TransactionError::NoActiveTransaction);
        }
        self.transaction_depth = 0;
        Ok(TransactionStatement::Rollback)
    }

    /// Sets the savepoint `name` at the present depth, in place of an
    /// earlier one of that name, and asks for `Savepoint`.
    pub fn set_savepoint(&mut self, name: &str) -> (r: TransactionStatement)
        ensures
            final(self).depth() == old(self).depth(),
            final(self).savepoints() == old(self).savepoints().insert(name@, old(self).depth()),
            r@ == TransactionStatementView::Savepoint(name@),
    {
        let ghost before = self.savepoints@;
        self.savepoints.push((name.to_owned(), self.transaction_depth));
        assert(self.savepoints@.drop_last() =~= before);
        TransactionStatement::Savepoint(name.to_owned())
    }

    /// The index of the last entry for `name`.
    fn find(&self, name: &String) -> (r: Option<usize>)
        ensures
            match r {
                Some(i) => i < self.savepoints@.len() && self.savepoints().dom().contains(name@)
                    && self.savepoints()[name@] == self.savepoints@[i as int].1
                    && self.savepoints@[i as int].0@ == name@,
                None => !self.savepoints().dom().contains(name@),
            },
    {
        let mut i: usize = self.savepoints.len();
        while i > 0
            invariant
                i <= self.savepoints@.len(),
                forall|j: int|
                    i <= j < self.savepoints@.len() ==> (#[trigger] self.savepoints@[j]).0@
                        != name@,
            decreases i,
        {
            i = i - 1;
            if self.savepoints[i].0 == *name {
                proof {
                    lemma_savepoint_lookup(self.savepoints@, name@, i as int);
                }
                return Some(i);
            }
        }
        proof {
            lemma_savepoint_lookup(self.savepoints@, name@, -1);
        }
        None
    }

    /// Takes the savepoint `name` away and asks for `ReleaseSavepoint`.
    /// Where no such savepoint is set nothing changes.
    pub fn release_savepoint(&mut self, name: &str) -> (r: Result<
        TransactionStatement,
        TransactionError,
    >)
        ensures
            final(self).depth() == old(self).depth(),
            final(self).savepoints() == old(self).savepoints().remove(name@),
            old(self).savepoints().dom().contains(name@) ==> (r matches Ok(s) && s@
                == TransactionStatementView::ReleaseSavepoint(name@)),
            !old(self).savepoints().dom().contains(name@) ==> (r matches Err(e) && e
                == TransactionError::UnknownSavepoint),
    {
        let key = name.to_owned();
        if self.find(&key).is_none() {
            return Err(TransactionError::UnknownSavepoint);
        }
        let mut i: usize = 0;
        while i < self.savepoints.len()
            invariant
                i <= self.savepoints@.len(),
                key@ == name@,
                self.transaction_depth == old(self).transaction_depth,
                savepoints_of(self.savepoints@).remove(name@)
                    == old(self).savepoints().remove(name@),
                forall|j: int| 0 <= j < i ==> (#[trigger] self.savepoints@[j]).0@ != name@,
            decreases self.savepoints@.len() - i,
        {
            if self.savepoints[i].0 == key {
                proof {
                    lemma_savepoint_removed(self.savepoints@, i as int, name@);
                }
                let _ = self.savepoints.remove(i);
            } else {
                i = i + 1;
            }
        }
        proof {
            lemma_savepoint_lookup(self.savepoints@, name@, -1);
        }
        Ok(TransactionStatement::ReleaseSavepoint(key))
    }

    /// Goes back to the depth at which the savepoint `name` was set and asks
    /// for `RollbackToSavepoint`. Where no such savepoint is set nothing changes.
    pub fn rollback_to_savepoint(&mut self, name: &str) -> (r: Result<
        TransactionStatement,
        TransactionError,
    >)
        ensures
            final(self).savepoints() == old(self).savepoints(),
            old(self).savepoints().dom().contains(name@) ==> (r matches Ok(s) && s@
                == TransactionStatementView::RollbackToSavepoint(name@)) && final(self).depth()
                == old(self).savepoints()[name@],
            !old(self).savepoints().dom().contains(name@) ==> (r matches Err(e) && e
                == TransactionError::UnknownSavepoint) && final(self).depth() == old(self).depth(),
    {
        let key = name.to_owned();
        match self.find(&key) {
            Some(i) => {
                self.transaction_depth = self.savepoints[i].1;
                Ok(TransactionStatement::RollbackToSavepoint(key))
            },
            None => Err(TransactionError::UnknownSavepoint),
        }
    }

    /// Whether a transaction is active.
    pub fn in_transaction(&self) -> (r: bool)
        ensures
            r == (self.depth() > 0),
    {
        self.transaction_depth > 0
    }

    /// How deep the transaction is nested.
    pub fn get_transaction_depth(&self) -> (r: usize)
        ensures
            r == self.depth(),
    {
        self.transaction_depth
    }
}

} // verus!
