use rusqlite::Connection;
use winbox_stats::schema::{ensure_table_sql, insert_sample_sql, pick_cols, select_points_sql};
use winbox_stats::series::{points_from_rows, SampleRow};

fn table_columns(conn: &Connection, table: &str) -> Vec<String> {
    let mut stmt = conn.prepare(&format!("PRAGMA table_info(\"{}\")", table)).unwrap();
    let mut cols = Vec::new();
    let mut rows = stmt.query([]).unwrap();
    while let Some(r) = rows.next().unwrap() {
        let name: String = r.get(1).unwrap();
        cols.push(name);
    }
    cols
}

fn read_rows(conn: &Connection, table: &str) -> Vec<SampleRow> {
    let cols = table_columns(conn, table);
    let (tc, vc) = pick_cols(&cols);
    let sql = select_points_sql(&tc, &vc, table);
    let mut stmt = conn.prepare(&sql).unwrap();
    let mut out = Vec::new();
    let mut rows = stmt.query([]).unwrap();
    while let Some(r) = rows.next().unwrap() {
        let ts: String = r.get(0).unwrap();
        let v: f64 = r.get(1).unwrap();
        out.push(SampleRow { ts, value_centi: (v * 100.0).round() as i64 });
    }
    out
}

#[test]
fn ensure_table_is_idempotent() {
    let conn = Connection::open_in_memory().unwrap();
    let sql = ensure_table_sql("CPU");
    conn.execute_batch(&sql).unwrap();
    conn.execute_batch(&sql).unwrap();
    let count: i64 = conn
        .query_row(
            "SELECT count(*) FROM sqlite_master WHERE name = 'CPU' AND type = 'table'",
            [],
            |r| r.get(0),
        )
        .unwrap();
    assert_eq!(count, 1);
    let idx: i64 = conn
        .query_row(
            "SELECT count(*) FROM sqlite_master WHERE name = 'ix_CPU_Timestamp' AND type = 'index'",
            [],
            |r| r.get(0),
        )
        .unwrap();
    assert_eq!(idx, 1);
}

#[test]
fn duplicate_timestamps_are_both_retained() {
    let conn = Connection::open_in_memory().unwrap();
    conn.execute_batch(&ensure_table_sql("CPU")).unwrap();
    let ins = insert_sample_sql("CPU");
    conn.execute(&ins, ("2025-11-03 10:00:00", 1.0)).unwrap();
    conn.execute(&ins, ("2025-11-03 10:00:00", 2.0)).unwrap();
    let count: i64 = conn.query_row("SELECT count(*) FROM \"CPU\"", [], |r| r.get(0)).unwrap();
    assert_eq!(count, 2);
}

#[test]
fn write_then_read_round_trip() {
    let conn = Connection::open_in_memory().unwrap();
    conn.execute_batch(&ensure_table_sql("CPU")).unwrap();
    conn.execute(&insert_sample_sql("CPU"), ("2025-11-03 10:00:00", 42.5)).unwrap();
    let rows = read_rows(&conn, "CPU");
    let points = points_from_rows(&rows);
    assert_eq!(points.len(), 1);
    assert_eq!(points[0].t, 1762164000);
    assert_eq!(points[0].value_centi, 4250);
}

#[test]
fn both_column_shapes_yield_identical_points() {
    let conn = Connection::open_in_memory().unwrap();
    conn.execute_batch(
        "CREATE TABLE \"a\"(\"ts\" TEXT NOT NULL, \"value\" REAL NOT NULL); \
         CREATE TABLE \"b\"(\"Timestamp\" TEXT NOT NULL, \"Value\" REAL NOT NULL);",
    )
    .unwrap();
    for (ts, v) in [("2025-11-03 10:00:00", 42.5), ("2025-11-04 10:00:00", 11.25)] {
        conn.execute("INSERT INTO \"a\"(\"ts\",\"value\") VALUES (?1, ?2)", (ts, v))
            .unwrap();
        conn.execute("INSERT INTO \"b\"(\"Timestamp\",\"Value\") VALUES (?1, ?2)", (ts, v))
            .unwrap();
    }
    let pa = points_from_rows(&read_rows(&conn, "a"));
    let pb = points_from_rows(&read_rows(&conn, "b"));
    assert_eq!(pa.len(), 2);
    assert_eq!(pa, pb);
}
