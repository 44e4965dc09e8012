use winbox_stats::graph::{run_graph, ScopeData, TableData};
use winbox_stats::render::render_series;
use winbox_stats::series::{SampleRow, SeriesPoint};

fn pt(t: i64, value_centi: i64) -> SeriesPoint {
    SeriesPoint { t, value_centi }
}

#[test]
fn empty_series_yields_no_output() {
    let r = render_series("out.png", "202511", "MYHOST", "CPU", vec![]);
    assert!(r.is_none());
}

#[test]
fn november_has_29_interior_gridlines() {
    // Points spanning all of November 2025, a 30-day month.
    let first = 1761955200; // 2025-11-01 00:00:00
    let last = 1764547199; // 2025-11-30 23:59:59
    let plan = render_series(
        "out.png",
        "202511",
        "MYHOST",
        "CPU",
        vec![pt(first, 1000), pt(last, 2000)],
    )
    .unwrap();
    assert_eq!(plan.x_min, first);
    assert_eq!(plan.x_max, last);
    assert_eq!(plan.gridline_xs.len(), 29);
    assert_eq!(plan.gridline_xs[0], 1762041600); // 2025-11-02 00:00:00
    assert_eq!(plan.x_label_count, 29);
    assert_eq!(plan.title, "202511 MYHOST CPU");
    assert_eq!(plan.y_caption, "CPU % Usage");
    assert_eq!(plan.out_name, "out.png");
}

#[test]
fn gridlines_are_clipped_to_the_data() {
    // Points from noon on the 10th to noon on the 20th of November 2025:
    // only the day starts of the 11th through the 20th fall inside.
    let a = 1762776000;
    let b = 1763640000;
    let plan = render_series("o.png", "202511", "H", "RAM", vec![pt(a, 0), pt(b, 0)]).unwrap();
    assert_eq!(plan.gridline_xs.len(), 10);
    assert_eq!(plan.x_label_count, 29);
}

#[test]
fn december_month_length_is_31_days() {
    let a = 1764547200; // 2025-12-01 00:00:00
    let b = 1767222000; // 2025-12-31 23:00:00
    let plan = render_series("o.png", "202512", "H", "CPU", vec![pt(a, 0), pt(b, 0)]).unwrap();
    assert_eq!(plan.gridline_xs.len(), 30);
    assert_eq!(plan.x_label_count, 30);
}

fn row(ts: &str, value_centi: i64) -> SampleRow {
    SampleRow { ts: ts.to_string(), value_centi }
}

#[test]
fn monthly_scope_yields_one_chart_per_table_with_points() {
    let scope = ScopeData {
        stem: "202511@MYHOST".to_string(),
        tables: vec![
            TableData {
                name: "CPU".to_string(),
                rows: vec![row("2025-11-03 10:00:00", 4250), row("garbage", 1), row(
                    "2025-11-04 10:00:00",
                    5000,
                )],
            },
            TableData { name: "RAM".to_string(), rows: vec![row("not a timestamp", 1)] },
        ],
    };
    let plans = run_graph(vec![scope]);
    assert_eq!(plans.len(), 1);
    assert_eq!(plans[0].out_name, "202511@MYHOST@CPU.png");
    assert_eq!(plans[0].title, "202511 MYHOST CPU");
    assert_eq!(plans[0].points.len(), 2);
    assert_eq!(plans[0].points[0], SeriesPoint { t: 1762164000, value_centi: 4250 });
}

#[test]
fn per_metric_scope_prefers_the_stats_table() {
    let scope = ScopeData {
        stem: "2025-11@MYHOST@CPU".to_string(),
        tables: vec![
            TableData { name: "other".to_string(), rows: vec![row("2025-11-03 10:00:00", 1)] },
            TableData { name: "Stats".to_string(), rows: vec![row("2025-11-04 10:00:00", 2)] },
        ],
    };
    let plans = run_graph(vec![scope]);
    assert_eq!(plans.len(), 1);
    assert_eq!(plans[0].out_name, "2025-11@MYHOST@CPU.png");
    assert_eq!(plans[0].title, "2025-11 MYHOST CPU");
    assert_eq!(plans[0].points[0].value_centi, 2);
}

#[test]
fn per_metric_scope_without_stats_falls_back_to_the_first_table() {
    let scope = ScopeData {
        stem: "2025-11@MYHOST@RAM".to_string(),
        tables: vec![
            TableData { name: "alpha".to_string(), rows: vec![row("2025-11-03 10:00:00", 7)] },
            TableData { name: "beta".to_string(), rows: vec![row("2025-11-04 10:00:00", 8)] },
        ],
    };
    let plans = run_graph(vec![scope]);
    assert_eq!(plans.len(), 1);
    assert_eq!(plans[0].points[0].value_centi, 7);
    assert_eq!(plans[0].y_caption, "RAM % Usage");
}

#[test]
fn odd_stem_degrades_to_a_monthly_scope() {
    let scope = ScopeData {
        stem: "a@b@c@d".to_string(),
        tables: vec![TableData {
            name: "CPU".to_string(),
            rows: vec![row("2025-11-03 10:00:00", 1)],
        }],
    };
    let plans = run_graph(vec![scope]);
    assert_eq!(plans.len(), 1);
    assert_eq!(plans[0].out_name, "a@b@c@d@CPU.png");
    assert_eq!(plans[0].title, "a@b@c@d  CPU");
}

#[test]
fn empty_scopes_yield_nothing() {
    let empty_tables = ScopeData { stem: "202511@A".to_string(), tables: vec![] };
    let no_points = ScopeData {
        stem: "202511@B".to_string(),
        tables: vec![TableData { name: "CPU".to_string(), rows: vec![] }],
    };
    let plans = run_graph(vec![empty_tables, no_points]);
    assert_eq!(plans.len(), 0);
}
