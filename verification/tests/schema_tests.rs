use winbox_stats::schema::{
    ensure_table_sql, insert_sample_sql, list_tables_sql, pick_cols, select_points_sql,
    split_stem_sqlite, to_json_path,
};

#[test]
fn monthly_stem_classifies() {
    let r = split_stem_sqlite("202511@MYHOST");
    assert_eq!(r.period, "202511");
    assert_eq!(r.host, "MYHOST");
    assert!(r.metric.is_none());
}

#[test]
fn per_metric_stem_classifies() {
    let r = split_stem_sqlite("2025-11@MYHOST@CPU");
    assert_eq!(r.period, "2025-11");
    assert_eq!(r.host, "MYHOST");
    assert_eq!(r.metric, Some("CPU".to_string()));
}

#[test]
fn odd_stems_degrade_gracefully() {
    let r = split_stem_sqlite("noseparators");
    assert_eq!(r.period, "noseparators");
    assert_eq!(r.host, "");
    assert!(r.metric.is_none());

    let r = split_stem_sqlite("a@b@c@d");
    assert_eq!(r.period, "a@b@c@d");
    assert_eq!(r.host, "");
    assert!(r.metric.is_none());

    let r = split_stem_sqlite("");
    assert_eq!(r.period, "");
    assert_eq!(r.host, "");
    assert!(r.metric.is_none());
}

#[test]
fn column_resolution() {
    let cols = vec!["ts".to_string(), "value".to_string()];
    assert_eq!(pick_cols(&cols), ("ts".to_string(), "value".to_string()));

    let cols = vec!["Timestamp".to_string(), "Value".to_string()];
    assert_eq!(pick_cols(&cols), ("Timestamp".to_string(), "Value".to_string()));

    let cols = vec!["TIME".to_string(), "VAL".to_string()];
    assert_eq!(pick_cols(&cols), ("TIME".to_string(), "VAL".to_string()));

    let cols = vec!["foo".to_string(), "bar".to_string()];
    assert_eq!(pick_cols(&cols), ("Timestamp".to_string(), "Value".to_string()));

    let cols: Vec<String> = vec![];
    assert_eq!(pick_cols(&cols), ("Timestamp".to_string(), "Value".to_string()));
}

#[test]
fn sql_text() {
    assert_eq!(
        ensure_table_sql("CPU"),
        "CREATE TABLE IF NOT EXISTS \"CPU\"(\"Timestamp\" TEXT NOT NULL, \"Value\" REAL NOT NULL); CREATE INDEX IF NOT EXISTS \"ix_CPU_Timestamp\" ON \"CPU\"(\"Timestamp\");"
    );
    assert_eq!(
        insert_sample_sql("CPU"),
        "INSERT INTO \"CPU\"(\"Timestamp\",\"Value\") VALUES (?1, ?2)"
    );
    assert_eq!(
        select_points_sql("ts", "value", "stats"),
        "SELECT \"ts\", \"value\" FROM \"stats\" ORDER BY \"ts\" ASC"
    );
    assert_eq!(
        list_tables_sql(),
        "SELECT name FROM sqlite_master WHERE type='table' AND name NOT LIKE 'sqlite_%' ORDER BY name"
    );
}

#[test]
fn json_paths() {
    assert_eq!(to_json_path("dir/202511@H.sqlite"), "dir/202511@H.json");
    assert_eq!(to_json_path("202511@H.sqlite"), "202511@H.json");
    assert_eq!(to_json_path("noext"), "noext.json");
    assert_eq!(to_json_path("dir.d/noext"), "dir.d/noext.json");
}
