use rusqlite::types::ValueRef;
use rusqlite::Connection;
use sqlite_reader::db::schema::{open_database, SqliteSchema};
use sqlite_reader::errors::FormatError;
use sqlite_reader::storage::btree::{BTreeTraverser, Row};
use sqlite_reader::storage::header::parse_header;
use sqlite_reader::storage::record::Value;

fn build(sql: &str) -> (Connection, BTreeTraverser) {
    let conn = Connection::open_in_memory().unwrap();
    conn.execute_batch(sql).unwrap();
    let data = conn.serialize("main").unwrap().to_vec();
    let db = open_database(data).unwrap();
    (conn, db)
}

fn rows_by_the_engine(conn: &Connection, table: &str) -> Vec<Row> {
    let mut stmt = conn
        .prepare(&format!("SELECT rowid, * FROM {} ORDER BY rowid", table))
        .unwrap();
    let columns = stmt.column_count();
    let mut rows = stmt.query(()).unwrap();
    let mut out = Vec::new();
    while let Some(row) = rows.next().unwrap() {
        let row_id: i64 = row.get(0).unwrap();
        let mut values = Vec::new();
        for i in 1..columns {
            values.push(match row.get_ref(i).unwrap() {
                ValueRef::Null => Value::Null,
                ValueRef::Integer(v) => Value::Integer(v),
                ValueRef::Real(x) => Value::Real(x.to_bits()),
                ValueRef::Text(t) => Value::Text(t.to_vec()),
                ValueRef::Blob(b) => Value::Blob(b.to_vec()),
            });
        }
        out.push(Row { row_id, values });
    }
    out
}

fn schema_by_the_engine(conn: &Connection) -> Vec<SqliteSchema> {
    let mut stmt = conn
        .prepare("SELECT type, name, tbl_name, rootpage, sql FROM sqlite_schema ORDER BY rowid")
        .unwrap();
    let mut rows = stmt.query(()).unwrap();
    let mut out = Vec::new();
    while let Some(row) = rows.next().unwrap() {
        out.push(SqliteSchema {
            type_: row.get(0).unwrap(),
            name: row.get(1).unwrap(),
            tbl_name: row.get(2).unwrap(),
            rootpage: row.get(3).unwrap(),
            sql: row.get(4).unwrap(),
        });
    }
    out
}

fn root_of(db: &BTreeTraverser, name: &str) -> u32 {
    let entries = db.read_sqlite_schema().unwrap();
    let entry = entries
        .into_iter()
        .map(|e| e.unwrap())
        .find(|e| e.name == name)
        .unwrap();
    entry.rootpage as u32
}

fn check_table(conn: &Connection, db: &BTreeTraverser, table: &str) -> usize {
    let expected = rows_by_the_engine(conn, table);
    let root = root_of(db, table);
    let rows = db.scan_rows(root).unwrap();
    assert_eq!(rows.len(), expected.len());
    for (ours, theirs) in rows.iter().zip(expected.iter()) {
        assert_eq!(ours, theirs);
    }
    assert_eq!(db.count_leaf_rows(root), Ok(expected.len() as u64));
    let mut cursor = db.scan_table(root);
    for theirs in expected.iter() {
        assert_eq!(cursor.next_row(), Some(Ok(theirs.clone())));
    }
    assert_eq!(cursor.next_row(), None);
    expected.len()
}

fn check_schema(conn: &Connection, db: &BTreeTraverser) -> usize {
    let expected = schema_by_the_engine(conn);
    let entries: Vec<SqliteSchema> =
        db.read_sqlite_schema().unwrap().into_iter().map(|e| e.unwrap()).collect();
    assert_eq!(entries, expected);
    assert_eq!(db.count_tables(), Ok(expected.len() as u64));
    expected.len()
}

#[test]
fn real_file_with_one_small_table() {
    let (conn, db) = build(
        "PRAGMA page_size = 4096;
         CREATE TABLE t(a INTEGER, b TEXT);
         INSERT INTO t VALUES (1, 'x');
         INSERT INTO t VALUES (2, 'y');",
    );
    assert_eq!(db.page_size(), 4096);
    assert_eq!(
        db.read_sqlite_schema(),
        Ok(vec![Ok(SqliteSchema {
            type_: "table".to_string(),
            name: "t".to_string(),
            tbl_name: "t".to_string(),
            rootpage: 2,
            sql: Some("CREATE TABLE t(a INTEGER, b TEXT)".to_string()),
        })])
    );
    assert_eq!(
        db.scan_rows(2),
        Ok(vec![
            Row { row_id: 1, values: vec![Value::Integer(1), Value::Text(b"x".to_vec())] },
            Row { row_id: 2, values: vec![Value::Integer(2), Value::Text(b"y".to_vec())] },
        ])
    );
    assert_eq!(check_schema(&conn, &db), 1);
    assert_eq!(check_table(&conn, &db, "t"), 2);
}

#[test]
fn real_file_header_is_read() {
    let (conn, _) = build("PRAGMA page_size = 1024; CREATE TABLE t(a); INSERT INTO t VALUES (1);");
    let data = conn.serialize("main").unwrap().to_vec();
    let header = parse_header(&data).unwrap();
    assert_eq!(header.page_size, 1024);
    assert_eq!(header.page_count as usize, data.len() / 1024);
    assert_eq!(header.text_encoding, 1);
    assert_eq!(header.reserved_space, 0);
}

#[test]
fn real_file_with_a_deep_tree() {
    let (conn, db) = build(
        "PRAGMA page_size = 512;
         CREATE TABLE t(a, b);
         WITH RECURSIVE c(x) AS (SELECT 1 UNION ALL SELECT x + 1 FROM c WHERE x < 20000)
         INSERT INTO t SELECT x * 7 - 50000, 'row number ' || x || ' of the table' FROM c;",
    );
    assert_eq!(db.page_size(), 512);
    assert!(db.page_count() > 1000);
    assert_eq!(check_table(&conn, &db, "t"), 20000);
    let root = root_of(&db, "t");
    let ids: Vec<i64> = db.scan_rows(root).unwrap().iter().map(|r| r.row_id).collect();
    assert_eq!(ids, (1..=20000).collect::<Vec<i64>>());
    // the root is an interior page over interior pages
    let top = db.read_page(root).unwrap();
    assert_eq!(top.page_type, 0x05);
    let child = db.read_page(top.cells[0].left_child_pointer.unwrap()).unwrap();
    assert_eq!(child.page_type, 0x05);
}

#[test]
fn real_file_with_overflowing_payloads() {
    let (conn, db) = build(
        "PRAGMA page_size = 512;
         CREATE TABLE t(a, b);
         WITH RECURSIVE c(x) AS (SELECT 380 UNION ALL SELECT x + 1 FROM c WHERE x < 1100)
         INSERT INTO t SELECT x, randomblob(x) FROM c;
         INSERT INTO t VALUES ('big text', hex(randomblob(40000)));
         INSERT INTO t VALUES ('big blob', randomblob(100000));
         INSERT INTO t VALUES ('zeros', zeroblob(5000));",
    );
    assert_eq!(check_table(&conn, &db, "t"), 724);
}

#[test]
fn real_file_with_overflow_on_large_pages() {
    for size in [1024, 4096, 8192, 65536] {
        let (conn, db) = build(&format!(
            "PRAGMA page_size = {size};
             CREATE TABLE t(a, b);
             INSERT INTO t VALUES (1, randomblob({size} - 36));
             INSERT INTO t VALUES (2, randomblob({size} - 40));
             INSERT INTO t VALUES (3, randomblob({size} - 39));
             INSERT INTO t VALUES (4, randomblob({size} - 38));
             INSERT INTO t VALUES (5, randomblob({size} * 3 + 17));
             INSERT INTO t VALUES (6, randomblob({size} * 2 - 8));
             INSERT INTO t VALUES (7, hex(randomblob({size})));"
        ));
        assert_eq!(db.page_size(), size as u32);
        assert_eq!(check_table(&conn, &db, "t"), 7);
    }
}

#[test]
fn real_file_with_values_of_every_class() {
    let (conn, db) = build(
        "CREATE TABLE v(a, b, c);
         INSERT INTO v VALUES (NULL, 0, 1);
         INSERT INTO v VALUES (-1, 127, -128);
         INSERT INTO v VALUES (128, -129, 32767);
         INSERT INTO v VALUES (-32768, 32768, 8388607);
         INSERT INTO v VALUES (-8388608, 8388608, 2147483647);
         INSERT INTO v VALUES (-2147483648, 2147483648, 140737488355327);
         INSERT INTO v VALUES (-140737488355328, 140737488355328, 9223372036854775807);
         INSERT INTO v VALUES (-9223372036854775807 - 1, 1.5, -2.25);
         INSERT INTO v VALUES (1e300, 3.141592653589793, -0.0);
         INSERT INTO v VALUES ('', x'', 'text');
         INSERT INTO v VALUES (x'00ff10', 'caf' || char(233), char(8364));
         INSERT INTO v VALUES (NULL, NULL, NULL);",
    );
    assert_eq!(check_table(&conn, &db, "v"), 12);
    let rows = db.scan_rows(root_of(&db, "v")).unwrap();
    assert_eq!(rows[0].values, vec![Value::Null, Value::Integer(0), Value::Integer(1)]);
    assert_eq!(
        rows[7].values,
        vec![Value::Integer(i64::MIN), Value::Real(1.5f64.to_bits()), Value::Real((-2.25f64).to_bits())]
    );
    assert_eq!(
        rows[9].values,
        vec![Value::Text(vec![]), Value::Blob(vec![]), Value::Text(b"text".to_vec())]
    );
    assert_eq!(rows[10].values[1], Value::Text("caf\u{e9}".as_bytes().to_vec()));
}

#[test]
fn real_file_with_chosen_row_ids() {
    let (conn, db) = build(
        "CREATE TABLE t(a);
         INSERT INTO t(rowid, a) VALUES (-5, 'minus five');
         INSERT INTO t(rowid, a) VALUES (9223372036854775807, 'largest');
         INSERT INTO t(rowid, a) VALUES (-9223372036854775807 - 1, 'smallest');
         INSERT INTO t(rowid, a) VALUES (72057594037927936, 'nine bytes');
         INSERT INTO t(rowid, a) VALUES (0, 'zero');",
    );
    assert_eq!(check_table(&conn, &db, "t"), 5);
    let ids: Vec<i64> =
        db.scan_rows(root_of(&db, "t")).unwrap().iter().map(|r| r.row_id).collect();
    assert_eq!(ids, vec![i64::MIN, -5, 0, 72057594037927936, i64::MAX]);
}

#[test]
fn real_file_schema_with_every_kind_of_entry() {
    let (conn, db) = build(
        "CREATE TABLE a(x, y);
         CREATE TABLE b(k TEXT PRIMARY KEY, v);
         CREATE INDEX a_x ON a(x);
         CREATE VIEW w AS SELECT x FROM a;
         CREATE TRIGGER g AFTER INSERT ON a BEGIN INSERT INTO b VALUES (new.x, new.y); END;
         CREATE TABLE \"odd name\"(z);
         INSERT INTO a VALUES (1, 2);",
    );
    assert_eq!(check_schema(&conn, &db), 7);
    let entries: Vec<SqliteSchema> =
        db.read_sqlite_schema().unwrap().into_iter().map(|e| e.unwrap()).collect();
    let auto = entries.iter().find(|e| e.name == "sqlite_autoindex_b_1").unwrap();
    assert_eq!(auto.type_, "index");
    assert_eq!(auto.sql, None);
    let view = entries.iter().find(|e| e.name == "w").unwrap();
    assert_eq!(view.type_, "view");
    assert_eq!(view.rootpage, 0);
    assert_eq!(check_table(&conn, &db, "a"), 1);
    assert_eq!(check_table(&conn, &db, "b"), 1);
}

#[test]
fn real_file_schema_over_several_pages() {
    let mut sql = String::from("PRAGMA page_size = 512;");
    for i in 0..300 {
        sql.push_str(&format!(
            "CREATE TABLE table_number_{i}(first_column INTEGER, second_column TEXT, third BLOB);"
        ));
    }
    sql.push_str("INSERT INTO table_number_299 VALUES (1, 'one', x'01');");
    let (conn, db) = build(&sql);
    assert_eq!(check_schema(&conn, &db), 300);
    assert_eq!(db.read_page(1).unwrap().page_type, 0x05);
    assert_eq!(check_table(&conn, &db, "table_number_299"), 1);
    assert_eq!(check_table(&conn, &db, "table_number_0"), 0);
}

#[test]
fn real_file_after_deletes_and_updates() {
    let (conn, db) = build(
        "PRAGMA page_size = 512;
         CREATE TABLE t(a, b);
         WITH RECURSIVE c(x) AS (SELECT 1 UNION ALL SELECT x + 1 FROM c WHERE x < 5000)
         INSERT INTO t SELECT x, 'value ' || x FROM c;
         DELETE FROM t WHERE a % 3 = 0;
         UPDATE t SET b = randomblob(700) WHERE a % 50 = 1;
         DELETE FROM t WHERE a BETWEEN 1000 AND 3000;",
    );
    let rows = check_table(&conn, &db, "t");
    assert!(rows > 1000 && rows < 5000);
}

#[test]
fn real_file_index_tree_is_not_a_table_tree() {
    let (_conn, db) = build(
        "CREATE TABLE a(x);
         CREATE INDEX a_x ON a(x);
         INSERT INTO a VALUES (1);
         CREATE TABLE k(p PRIMARY KEY, q) WITHOUT ROWID;
         INSERT INTO k VALUES (1, 2);",
    );
    for name in ["a_x", "k"] {
        let root = root_of(&db, name);
        let err = db.scan_rows(root).unwrap_err();
        assert_eq!(err.page, root);
        assert_eq!(err.error, FormatError::InvalidPageType);
        let err = db.count_leaf_rows(root).unwrap_err();
        assert_eq!(err.error, FormatError::InvalidPageType);
    }
}

#[test]
fn real_file_empty_database_has_an_empty_schema() {
    let (conn, db) = build("PRAGMA page_size = 2048; CREATE TABLE t(a); DROP TABLE t;");
    assert_eq!(check_schema(&conn, &db), 0);
    assert_eq!(db.scan_rows(1), Ok(vec![]));
}

#[test]
fn real_file_with_a_corrupted_page_type() {
    let conn = Connection::open_in_memory().unwrap();
    conn.execute_batch("CREATE TABLE t(a); INSERT INTO t VALUES (1);").unwrap();
    let mut data = conn.serialize("main").unwrap().to_vec();
    data[100] = 0xff;
    let db = open_database(data).unwrap();
    let err = db.read_sqlite_schema().unwrap_err();
    assert_eq!(err.page, 1);
    assert_eq!(err.error, FormatError::InvalidPageType);
}
