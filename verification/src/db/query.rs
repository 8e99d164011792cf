//! The statements of the query language, as values, and the entry to their parser.

use crate::errors::QueryError;
use vstd::prelude::*;

verus! {

#[derive(Debug, PartialEq, Eq)]
pub enum Query {
    Select(SelectQuery),
    Insert(InsertQuery),
    Update(UpdateQuery),
    Delete(DeleteQuery),
    CreateTable(CreateTableQuery),
    DropTable(DropTableQuery),
}

#[derive(Debug, PartialEq, Eq)]
pub struct SelectQuery {
    pub columns: Vec<String>,
    pub table: String,
    pub where_clause: Option<WhereClause>,
    pub order_by: Option<OrderBy>,
    pub limit: Option<usize>,
}

#[derive(Debug, PartialEq, Eq)]
pub struct InsertQuery {
    pub table: String,
    pub columns: Vec<String>,
    pub values: Vec<String>,
}

#[derive(Debug, PartialEq, Eq)]
pub struct UpdateQuery {
    pub table: String,
    pub set_clauses: Vec<(String, String)>,
    pub where_clause: Option<WhereClause>,
}

#[derive(Debug, PartialEq, Eq)]
pub struct DeleteQuery {
    pub table: String,
    pub where_clause: Option<WhereClause>,
}

#[derive(Debug, PartialEq, Eq)]
pub struct CreateTableQuery {
    pub table: String,
    pub columns: Vec<ColumnDef>,
}

#[derive(Debug, PartialEq, Eq)]
pub struct DropTableQuery {
    pub table: String,
}

#[derive(Debug, PartialEq, Eq)]
pub struct WhereClause {
    pub condition: String,
}

#[derive(Debug, PartialEq, Eq)]
pub struct OrderBy {
    pub column: String,
    pub direction: OrderDirection,
}

#[derive(Clone, Copy, Debug, PartialEq, Eq, Structural)]
pub enum OrderDirection {
    Asc,
    Desc,
}

#[derive(Debug, PartialEq, Eq)]
pub struct ColumnDef {
    pub name: String,
    pub data_type: String,
}

/// The words of a text: what `str::split_whitespace` of the standard
/// library yields for it, in order.
pub uninterp spec fn whitespace_words(text: Seq<char>) -> Seq<Seq<char>>;

/// A text in upper case: what `str::to_uppercase` of the standard library
/// returns for it.
pub uninterp spec fn uppercase_of(text: Seq<char>) -> Seq<char>;

/// `str::split_whitespace` of the standard library, each word as a string
/// of its own. The contract gives the words a name and says no more of them.
#[verifier::external_body]
fn tokenize(sql: &str) -> (tokens: Vec<String>)
    ensures
        tokens@.len() == whitespace_words(sql@).len(),
        forall|i: int| 0 <= i < tokens@.len() ==> (#[trigger] tokens@[i])@ == whitespace_words(sql@)[i],
{
    sql.split_whitespace().map(String::from).collect()
}

/// `str::to_uppercase` of the standard library. The contract gives the
/// result a name and says no more of it.
#[verifier::external_body]
fn uppercase(word: &str) -> (upper: String)
    ensures
        upper@ == uppercase_of(word@),
{
    word.to_uppercase()
}

/// Whether `word` is the keyword that one of the six kinds of statement starts with.
pub open spec fn is_statement_keyword(word: Seq<char>) -> bool {
    word == "SELECT"@ || word == "INSERT"@ || word == "UPDATE"@ || word == "DELETE"@ || word
        == "CREATE"@ || word == "DROP"@
}

/// Whether `word` is the keyword that one of the six kinds of statement starts with.
pub fn statement_keyword(word: &String) -> (r: bool)
    ensures
        r == is_statement_keyword(word@),
{
    *word == "SELECT".to_owned() || *word == "INSERT".to_owned() || *word == "UPDATE".to_owned()
        || *word == "DELETE".to_owned() || *word == "CREATE".to_owned() || *word
        == "DROP".to_owned()
}

/// The texts that `parse` takes: those with a first word that is, in upper
/// case, none of the six statement keywords. The grammar of the six kinds
/// of statement is not part of this library.
pub open spec fn outside_the_grammar(sql: Seq<char>) -> bool {
    whitespace_words(sql).len() > 0 && !is_statement_keyword(uppercase_of(whitespace_words(sql)[0]))
}

/// Parses a statement. Every text that this function takes starts with a
/// word that opens no statement, and is refused as unsupported.
pub fn parse(sql: &str) -> (r: Result<Query, QueryError>)
    requires
        outside_the_grammar(sql@),
    ensures
        r matches Err(e) && e == QueryError::UnsupportedStatement,
{
    Err(QueryError::UnsupportedStatement)
}

/// Whether `parse` takes `sql`: whether it has a first word that is, in
/// upper case, none of the six statement keywords.
pub fn is_outside_the_grammar(sql: &str) -> (r: bool)
    ensures
        r == outside_the_grammar(sql@),
{
    let tokens = tokenize(sql);
    if tokens.len() == 0 {
        return false;
    }
    let first = uppercase(tokens[0].as_str());
    !statement_keyword(&first)
}

/// Parses a statement where `parse` takes the text, and returns `None`
/// where it does not: for a text without a word, and for one whose first
/// word is a statement keyword in any case.
pub fn try_parse(sql: &str) -> (r: Option<Result<Query, QueryError>>)
    ensures
        r is Some <==> outside_the_grammar(sql@),
        r matches Some(parsed) ==> parsed matches Err(e) && e == QueryError::UnsupportedStatement,
{
    if is_outside_the_grammar(sql) {
        Some(parse(sql))
    } else {
        None
    }
}

} // verus!
