//! The schema catalog: the rows of the table b-tree on page 1, one for each
//! table, index, view and trigger.

use crate::errors::{CatalogError, FormatError, PageError};
use crate::storage::btree::{
    rows_view, spec_scan_rows, BTreeTraverser, Database, Row, RowView,
};
use crate::storage::header::{parse_header, spec_parse_header};
use crate::storage::record::{copy_bytes, Value, ValueView};
use vstd::prelude::*;
use vstd::utf8::{decode_utf8, encode_utf8, encode_utf8_decode_utf8, valid_utf8};

verus! {

/// One entry of the schema catalog.
#[derive(Clone, Debug, PartialEq, Eq)]
pub struct SqliteSchema {
    pub type_: String,
    pub name: String,
    pub tbl_name: String,
    pub rootpage: i64,
    pub sql: Option<String>,
}

/// A schema entry as a mathematical value.
pub struct SqliteSchemaView {
    pub type_: Seq<char>,
    pub name: Seq<char>,
    pub tbl_name: Seq<char>,
    pub rootpage: i64,
    pub sql: Option<Seq<char>>,
}

impl View for SqliteSchema {
    type V = SqliteSchemaView;

    open spec fn view(&self) -> SqliteSchemaView {
        SqliteSchemaView {
            type_: self.type_@,
            name: self.name@,
            tbl_name: self.tbl_name@,
            rootpage: self.rootpage,
            sql: match self.sql {
                Some(s) => Some(s@),
                None => None,
            },
        }
    }
}

/// The text that a column value holds: the characters of a text value whose
/// bytes are UTF-8, nothing for any other value.
pub open spec fn text_of(value: ValueView) -> Option<Seq<char>> {
    match value {
        ValueView::Text(bytes) => if valid_utf8(bytes) {
            Some(decode_utf8(bytes))
        } else {
            None
        },
        _ => None,
    }
}

/// The SQL text that the last column of a schema row holds: none for a
/// null, the text of a text value; a value of another class holds neither.
pub open spec fn sql_of(value: ValueView) -> Option<Option<Seq<char>>> {
    match value {
        ValueView::Null => Some(None),
        _ => match text_of(value) {
            Some(sql) => Some(Some(sql)),
            None => None,
        },
    }
}

/// The four kinds of schema entry.
pub open spec fn is_entry_type(type_: Seq<char>) -> bool {
    type_ == "table"@ || type_ == "index"@ || type_ == "view"@ || type_ == "trigger"@
}

/// The schema entry that a row of the schema table stands for: five columns,
/// the type, the name and the table name as text, the root page as an
/// integer, the SQL text as text or null; and the type one of the four kinds.
pub open spec fn spec_schema_entry(row: RowView) -> Result<SqliteSchemaView, CatalogError> {
    let malformed = Err::<SqliteSchemaView, CatalogError>(
        CatalogError::MalformedSchemaRow { row_id: row.row_id },
    );
    if row.values.len() != 5 {
        malformed
    } else {
        match (
            text_of(row.values[0]),
            text_of(row.values[1]),
            text_of(row.values[2]),
            row.values[3],
            sql_of(row.values[4]),
        ) {
            (Some(type_), Some(name), Some(tbl_name), ValueView::Integer(rootpage), Some(sql)) => {
                if is_entry_type(type_) {
                    Ok(SqliteSchemaView { type_, name, tbl_name, rootpage, sql })
                } else {
                    malformed
                }
            },
            _ => malformed,
        }
    }
}

/// What reading one schema row gave, as a mathematical value.
pub open spec fn entry_view(entry: Result<SqliteSchema, CatalogError>) -> Result<
    SqliteSchemaView,
    CatalogError,
> {
    match entry {
        Ok(e) => Ok(e@),
        Err(e) => Err(e),
    }
}

/// `String::from_utf8` of the standard library: a string is returned if and
/// only if the bytes are well-formed UTF-8, and the string is then made of
/// exactly these bytes.
#[verifier::external_body]
fn string_from_utf8(bytes: Vec<u8>) -> (r: Option<String>)
    ensures
        r is Some <==> valid_utf8(bytes@),
        r matches Some(s) ==> encode_utf8(s@) == bytes@,
{
    match String::from_utf8(bytes) {
        Ok(s) => Some(s),
        Err(_) => None,
    }
}

/// The text that a column value holds.
fn text_value(value: &Value) -> (r: Option<String>)
    ensures
        match r {
            Some(s) => text_of(value@) == Some(s@),
            None => text_of(value@) is None,
        },
{
    match value {
        Value::Text(bytes) => {
            let copy = copy_bytes(bytes.as_slice(), 0, bytes.len());
            assert(copy@ =~= bytes@);
            match string_from_utf8(copy) {
                Some(s) => {
                    proof {
                        encode_utf8_decode_utf8(s@);
                    }
                    Some(s)
                },
                None => None,
            }
        },
        _ => None,
    }
}

/// Reads a row of the schema table as a schema entry.
pub fn schema_entry(row: &Row) -> (r: Result<SqliteSchema, CatalogError>)
    ensures
        entry_view(r) == spec_schema_entry(row@),
{
    let malformed = CatalogError::MalformedSchemaRow { row_id: row.row_id };
    if row.values.len() != 5 {
        return Err(malformed);
    }
    let type_ = match text_value(&row.values[0]) {
        Some(s) => s,
        None => { return Err(malformed); },
    };
    let known = type_ == "table".to_owned() || type_ == "index".to_owned() || type_
        == "view".to_owned() || type_ == "trigger".to_owned();
    let name = match text_value(&row.values[1]) {
        Some(s) => s,
        None => { return Err(malformed); },
    };
    let tbl_name = match text_value(&row.values[2]) {
        Some(s) => s,
        None => { return Err(malformed); },
    };
    let rootpage = match &row.values[3] {
        Value::Integer(n) => *n,
        _ => { return Err(malformed); },
    };
    if !known {
        return Err(malformed);
    }
    let sql = match &row.values[4] {
        Value::Null => None,
        other => match text_value(other) {
            Some(s) => Some(s),
            None => { return Err(malformed); },
        },
    };
    Ok(SqliteSchema { type_, name, tbl_name, rootpage, sql })
}

impl BTreeTraverser {
    /// Reads the schema catalog: the rows of the table b-tree on page 1,
    /// each as a schema entry. A row that is no schema entry is reported in
    /// its place and does not end the reading; a fault in the file's format does.
    pub fn read_sqlite_schema(&self) -> (r: Result<
        Vec<Result<SqliteSchema, CatalogError>>,
        PageError,
    >)
        ensures
            match spec_scan_rows(self@, 1) {
                Err(e) => r == Err::<Vec<Result<SqliteSchema, CatalogError>>, PageError>(e),
                Ok(rows) => r matches Ok(entries) && entries@.len() == rows.len() && forall|
                    i: int,
                |
                    0 <= i < rows.len() ==> entry_view(#[trigger] entries@[i])
                        == spec_schema_entry(rows[i]),
            },
    {
        let rows = match self.scan_rows(1) {
            Ok(rows) => rows,
            Err(e) => { return Err(e); },
        };
        let mut entries: Vec<Result<SqliteSchema, CatalogError>> = Vec::new();
        let mut i: usize = 0;
        while i < rows.len()
            invariant
                i <= rows@.len(),
                entries@.len() == i,
                forall|j: int|
                    0 <= j < i ==> entry_view(#[trigger] entries@[j]) == spec_schema_entry(
                        rows_view(rows@)[j],
                    ),
            decreases rows@.len() - i,
        {
            let entry = schema_entry(&rows[i]);
            entries.push(entry);
            i = i + 1;
        }
        Ok(entries)
    }
}

/// Opens the database whose file holds `data`: checks the signature and the
/// page size of its header and hands out a handle on it.
pub fn open_database(data: Vec<u8>) -> (r: Result<BTreeTraverser, FormatError>)
    ensures
        match spec_parse_header(data@) {
            Ok(header) => r matches Ok(t) && t@ == (Database {
                image: data@,
                page_size: header.page_size as nat,
                reserved: header.reserved_space as nat,
            }),
            Err(e) => r matches Err(f) && f == e,
        },
{
    let header = match parse_header(data.as_slice()) {
        Ok(header) => header,
        Err(e) => { return Err(e); },
    };
    BTreeTraverser::with_reserved(data, header.page_size, header.reserved_space)
}

} // verus!
