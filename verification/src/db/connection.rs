//! A connection: a b-tree store, and what carrying out a statement does to it.

use crate::db::query::{is_outside_the_grammar, outside_the_grammar, parse, Query};
use crate::errors::QueryError;
use crate::storage::btree::{BTree, Database};
use vstd::prelude::*;

verus! {

/// A connection to a database.
#[derive(Debug)]
pub struct Connection {
    btree: BTree,
    last_insert_rowid: i64,
}

impl Connection {
    /// The database that the connection is to.
    pub closed spec fn database(&self) -> Database {
        self.btree@
    }

    /// The row id that the last insertion gave.
    pub closed spec fn last_rowid(&self) -> i64 {
        self.last_insert_rowid
    }

    /// A connection to the database of `btree`, with no insertion made yet.
    pub fn new(btree: BTree) -> (r: Connection)
        ensures
            r.database() == btree@,
            r.last_rowid() == 0,
    {
        Connection { btree, last_insert_rowid: 0 }
    }

    /// The b-tree store of the connection.
    pub fn btree(&self) -> (r: &BTree)
        ensures
            r@ == self.database(),
    {
        &self.btree
    }

    /// Carries out a statement that changes data. An insertion, an update
    /// and a deletion succeed, and an insertion sets the last row id to 0;
    /// they change nothing in the database, which this library only reads.
    /// A statement of any other kind is refused.
    pub fn apply(&mut self, query: &Query) -> (r: Result<(), QueryError>)
        ensures
            final(self).database() == old(self).database(),
            match *query {
                Query::Insert(_) => r is Ok && final(self).last_rowid() == 0,
                Query::Update(_) | Query::Delete(_) => r is Ok
                    && final(self).last_rowid() == old(self).last_rowid(),
                _ => r == Err::<(), QueryError>(QueryError::UnsupportedForExecute)
                    && final(self).last_rowid() == old(self).last_rowid(),
            },
    {
        match query {
            Query::Insert(_) => {
                self.last_insert_rowid = 0;
                Ok(())
            },
            Query::Update(_) => Ok(()),
            Query::Delete(_) => Ok(()),
            _ => Err(QueryError::UnsupportedForExecute),
        }
    }

    /// Answers a statement that reads data. A selection gives no rows; a
    /// statement of any other kind is refused.
    pub fn answer(&self, query: &Query) -> (r: Result<Vec<Vec<String>>, QueryError>)
        ensures
            match *query {
                Query::Select(_) => r matches Ok(rows) && rows@.len() == 0,
                _ => r matches Err(e) && e == QueryError::UnsupportedForQuery,
            },
    {
        match query {
            Query::Select(_) => Ok(Vec::new()),
            _ => Err(QueryError::UnsupportedForQuery),
        }
    }

    /// Parses `sql` and carries the statement out. Every text that `parse`
    /// takes is refused by it, and the connection is left as it was.
    pub fn execute(&mut self, sql: &str) -> (r: Result<(), QueryError>)
        requires
            outside_the_grammar(sql@),
        ensures
            r == Err::<(), QueryError>(QueryError::UnsupportedStatement),
            final(self).database() == old(self).database(),
            final(self).last_rowid() == old(self).last_rowid(),
    {
        match parse(sql) {
            Ok(query) => self.apply(&query),
            Err(e) => Err(e),
        }
    }

    /// Parses `sql` and carries the statement out where `parse` takes the
    /// text; returns `None` where it does not.
    pub fn try_execute(&mut self, sql: &str) -> (r: Option<Result<(), QueryError>>)
        ensures
            r is Some <==> outside_the_grammar(sql@),
            r matches Some(done) ==> done == Err::<(), QueryError>(
                QueryError::UnsupportedStatement,
            ),
            final(self).database() == old(self).database(),
            final(self).last_rowid() == old(self).last_rowid(),
    {
        if is_outside_the_grammar(sql) {
            Some(self.execute(sql))
        } else {
            None
        }
    }

    /// Parses `sql` and answers the statement. Every text that `parse`
    /// takes is refused by it.
    pub fn query(&self, sql: &str) -> (r: Result<Vec<Vec<String>>, QueryError>)
        requires
            outside_the_grammar(sql@),
        ensures
            r matches Err(e) && e == QueryError::UnsupportedStatement,
    {
        match parse(sql) {
            Ok(query) => self.answer(&query),
            Err(e) => Err(e),
        }
    }

    /// Parses `sql` and answers the statement where `parse` takes the text;
    /// returns `None` where it does not.
    pub fn try_query(&self, sql: &str) -> (r: Option<Result<Vec<Vec<String>>, QueryError>>)
        ensures
            r is Some <==> outside_the_grammar(sql@),
            r matches Some(answer) ==> answer matches Err(e) && e
                == QueryError::UnsupportedStatement,
    {
        if is_outside_the_grammar(sql) {
            Some(self.query(sql))
        } else {
            None
        }
    }

    /// The row id that the last insertion gave.
    pub fn get_last_insert_rowid(&self) -> (r: i64)
        ensures
            r == self.last_rowid(),
    {
        self.last_insert_rowid
    }
}

/// A statement that has been prepared for execution.
#[derive(Debug)]
pub struct PreparedStatement {}

impl PreparedStatement {
    /// Executes the statement, which is not provided for: the call is
    /// always refused.
    pub fn execute(&self) -> (r: Result<(), QueryError>)
        ensures
            r == Err::<(), QueryError>(QueryError::NotImplemented),
    {
        Err(QueryError::NotImplemented)
    }
}

} // verus!
