use sqlite_reader::db::connection::{Connection, PreparedStatement};
use sqlite_reader::db::query::{
    is_outside_the_grammar, statement_keyword, try_parse, ColumnDef, CreateTableQuery, DeleteQuery, DropTableQuery,
    InsertQuery, OrderBy, OrderDirection, Query, SelectQuery, UpdateQuery, WhereClause,
};
use sqlite_reader::db::transaction::{Transaction, TransactionStatement};
use sqlite_reader::errors::{QueryError, TransactionError};
use sqlite_reader::storage::btree::{BTree, BTreeTraverser};

fn connection() -> Connection {
    Connection::new(BTree::new(BTreeTraverser::new(vec![0u8; 1024], 512).unwrap()))
}

fn select() -> Query {
    Query::Select(SelectQuery {
        columns: vec!["a".to_string()],
        table: "t".to_string(),
        where_clause: Some(WhereClause { condition: "a > 1".to_string() }),
        order_by: Some(OrderBy { column: "a".to_string(), direction: OrderDirection::Desc }),
        limit: Some(3),
    })
}

fn insert() -> Query {
    Query::Insert(InsertQuery {
        table: "t".to_string(),
        columns: vec!["a".to_string()],
        values: vec!["1".to_string()],
    })
}

fn update() -> Query {
    Query::Update(UpdateQuery {
        table: "t".to_string(),
        set_clauses: vec![("a".to_string(), "2".to_string())],
        where_clause: None,
    })
}

fn delete() -> Query {
    Query::Delete(DeleteQuery { table: "t".to_string(), where_clause: None })
}

fn create() -> Query {
    Query::CreateTable(CreateTableQuery {
        table: "t".to_string(),
        columns: vec![ColumnDef { name: "a".to_string(), data_type: "INTEGER".to_string() }],
    })
}

fn drop() -> Query {
    Query::DropTable(DropTableQuery { table: "t".to_string() })
}

#[test]
fn text_that_opens_no_statement_is_unsupported() {
    for sql in ["BEGIN TRANSACTION", "COMMIT", "  vacuum  ", "pragma page_size", "selectx 1", "x"] {
        assert_eq!(try_parse(sql), Some(Err(QueryError::UnsupportedStatement)), "{}", sql);
        assert!(is_outside_the_grammar(sql));
    }
}

#[test]
fn statements_and_empty_text_are_left_to_the_caller() {
    for sql in [
        "SELECT * FROM t",
        "select * from t",
        "  Insert into t values (1)",
        "UPDATE t SET a = 1",
        "delete from t",
        "CREATE TABLE t(a)",
        "drop table t",
        "\tDROP\n",
        "",
        "   \n\t ",
    ] {
        assert_eq!(try_parse(sql), None, "{:?}", sql);
        assert!(!is_outside_the_grammar(sql));
    }
}

#[test]
fn statement_keywords_are_the_six_in_upper_case() {
    for word in ["SELECT", "INSERT", "UPDATE", "DELETE", "CREATE", "DROP"] {
        assert!(statement_keyword(&word.to_string()));
        assert!(!statement_keyword(&word.to_lowercase()));
    }
    for word in ["", "BEGIN", "SELECTS", "SELEC", " SELECT", "DROPS"] {
        assert!(!statement_keyword(&word.to_string()));
    }
}

#[test]
fn prepared_statement_is_not_implemented() {
    assert_eq!(PreparedStatement {}.execute(), Err(QueryError::NotImplemented));
}

#[test]
fn apply_takes_statements_that_change_data() {
    let mut conn = connection();
    assert_eq!(conn.get_last_insert_rowid(), 0);
    assert_eq!(conn.apply(&insert()), Ok(()));
    assert_eq!(conn.get_last_insert_rowid(), 0);
    assert_eq!(conn.apply(&update()), Ok(()));
    assert_eq!(conn.apply(&delete()), Ok(()));
    assert_eq!(conn.apply(&select()), Err(QueryError::UnsupportedForExecute));
    assert_eq!(conn.apply(&create()), Err(QueryError::UnsupportedForExecute));
    assert_eq!(conn.apply(&drop()), Err(QueryError::UnsupportedForExecute));
    assert_eq!(conn.btree().traverser().page_count(), 2);
}

#[test]
fn answer_takes_selections_only() {
    let conn = connection();
    assert_eq!(conn.answer(&select()), Ok(vec![]));
    for query in [insert(), update(), delete(), create(), drop()] {
        assert_eq!(conn.answer(&query), Err(QueryError::UnsupportedForQuery));
    }
}

#[test]
fn connection_passes_the_parser_verdict_on() {
    let mut conn = connection();
    assert_eq!(conn.try_execute("BEGIN"), Some(Err(QueryError::UnsupportedStatement)));
    assert_eq!(conn.try_execute("insert into t values (1)"), None);
    assert_eq!(conn.try_execute(""), None);
    assert_eq!(conn.try_query("EXPLAIN x"), Some(Err(QueryError::UnsupportedStatement)));
    assert_eq!(conn.try_query("select 1"), None);
    assert_eq!(conn.get_last_insert_rowid(), 0);
}

#[test]
fn transaction_depth_goes_up_and_down() {
    let mut tx = Transaction::new();
    assert!(!tx.in_transaction());
    assert_eq!(tx.get_transaction_depth(), 0);
    assert_eq!(tx.begin_transaction(), Some(TransactionStatement::Begin));
    assert!(tx.in_transaction());
    assert_eq!(tx.begin_transaction(), None);
    assert_eq!(tx.begin_transaction(), None);
    assert_eq!(tx.get_transaction_depth(), 3);
    assert_eq!(tx.commit_transaction(), Ok(None));
    assert_eq!(tx.commit_transaction(), Ok(None));
    assert_eq!(tx.get_transaction_depth(), 1);
    assert_eq!(tx.commit_transaction(), Ok(Some(TransactionStatement::Commit)));
    assert_eq!(tx.get_transaction_depth(), 0);
    assert!(!tx.in_transaction());
}

#[test]
fn commit_and_rollback_need_a_transaction() {
    let mut tx = Transaction::new();
    assert_eq!(tx.commit_transaction(), Err(TransactionError::NoActiveTransaction));
    assert_eq!(tx.rollback_transaction(), Err(TransactionError::NoActiveTransaction));
    assert_eq!(tx.get_transaction_depth(), 0);
    tx.begin_transaction();
    tx.begin_transaction();
    assert_eq!(tx.rollback_transaction(), Ok(TransactionStatement::Rollback));
    assert_eq!(tx.get_transaction_depth(), 0);
    assert_eq!(tx.rollback_transaction(), Err(TransactionError::NoActiveTransaction));
}

#[test]
fn savepoints_remember_their_depth() {
    let mut tx = Transaction::new();
    tx.begin_transaction();
    assert_eq!(tx.set_savepoint("one"), TransactionStatement::Savepoint("one".to_string()));
    tx.begin_transaction();
    tx.begin_transaction();
    tx.set_savepoint("three");
    tx.begin_transaction();
    assert_eq!(tx.get_transaction_depth(), 4);
    assert_eq!(
        tx.rollback_to_savepoint("three"),
        Ok(TransactionStatement::RollbackToSavepoint("three".to_string()))
    );
    assert_eq!(tx.get_transaction_depth(), 3);
    assert_eq!(tx.rollback_to_savepoint("one").map(|s| s.sql()), Ok("ROLLBACK TO SAVEPOINT one".to_string()));
    assert_eq!(tx.get_transaction_depth(), 1);
    // a savepoint stays set after a rollback to it
    assert!(tx.rollback_to_savepoint("three").is_ok());
    assert_eq!(tx.get_transaction_depth(), 3);
    assert_eq!(tx.rollback_to_savepoint("two"), Err(TransactionError::UnknownSavepoint));
    assert_eq!(tx.get_transaction_depth(), 3);
}

#[test]
fn setting_a_savepoint_again_replaces_it() {
    let mut tx = Transaction::new();
    tx.set_savepoint("s");
    tx.begin_transaction();
    tx.begin_transaction();
    tx.set_savepoint("s");
    tx.begin_transaction();
    assert!(tx.rollback_to_savepoint("s").is_ok());
    assert_eq!(tx.get_transaction_depth(), 2);
    assert_eq!(
        tx.release_savepoint("s"),
        Ok(TransactionStatement::ReleaseSavepoint("s".to_string()))
    );
    // both settings are gone
    assert_eq!(tx.rollback_to_savepoint("s"), Err(TransactionError::UnknownSavepoint));
    assert_eq!(tx.release_savepoint("s"), Err(TransactionError::UnknownSavepoint));
    assert_eq!(tx.get_transaction_depth(), 2);
}

#[test]
fn releasing_one_savepoint_keeps_the_others() {
    let mut tx = Transaction::new();
    tx.set_savepoint("a");
    tx.begin_transaction();
    tx.set_savepoint("b");
    tx.begin_transaction();
    tx.set_savepoint("c");
    assert!(tx.release_savepoint("b").is_ok());
    assert_eq!(tx.release_savepoint("b"), Err(TransactionError::UnknownSavepoint));
    assert!(tx.rollback_to_savepoint("c").is_ok());
    assert_eq!(tx.get_transaction_depth(), 2);
    assert!(tx.rollback_to_savepoint("a").is_ok());
    assert_eq!(tx.get_transaction_depth(), 0);
    assert_eq!(tx.release_savepoint(""), Err(TransactionError::UnknownSavepoint));
}

#[test]
fn statements_have_their_text() {
    assert_eq!(TransactionStatement::Begin.sql(), "BEGIN TRANSACTION");
    assert_eq!(TransactionStatement::Commit.sql(), "COMMIT");
    assert_eq!(TransactionStatement::Rollback.sql(), "ROLLBACK");
    assert_eq!(TransactionStatement::Savepoint("p q".to_string()).sql(), "SAVEPOINT p q");
    assert_eq!(
        TransactionStatement::ReleaseSavepoint("x".to_string()).sql(),
        "RELEASE SAVEPOINT x"
    );
    assert_eq!(
        TransactionStatement::RollbackToSavepoint(String::new()).sql(),
        "ROLLBACK TO SAVEPOINT "
    );
}

#[test]
fn transaction_statements_open_no_query() {
    // what a transaction asks for is text that the parser refuses, not text it leaves out
    let mut conn = connection();
    let mut tx = Transaction::new();
    let begin = tx.begin_transaction().unwrap();
    assert_eq!(conn.try_execute(&begin.sql()), Some(Err(QueryError::UnsupportedStatement)));
    let save = tx.set_savepoint("s");
    assert_eq!(conn.try_execute(&save.sql()), Some(Err(QueryError::UnsupportedStatement)));
}
