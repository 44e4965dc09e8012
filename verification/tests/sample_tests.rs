use winbox_stats::collect::{collect_plan, DiskInfo};
use winbox_stats::sample::{clamp_percent_centi, sample_disk_percent, sample_ram_percent};

#[test]
fn ram_percent_stays_on_the_scale() {
    assert_eq!(sample_ram_percent(0, 123), 0);
    assert_eq!(sample_ram_percent(100, 25), 7500);
    assert_eq!(sample_ram_percent(8, 1), 8750);
    assert_eq!(sample_ram_percent(100, 0), 10000);
    assert_eq!(sample_ram_percent(100, 100), 0);
    assert_eq!(sample_ram_percent(100, 200), 0);
    assert!(sample_ram_percent(u64::MAX, 1) <= 10000);
}

#[test]
fn disk_percent_skips_empty_totals() {
    assert_eq!(sample_disk_percent(0, 0), None);
    assert_eq!(sample_disk_percent(0, 50), None);
    assert_eq!(sample_disk_percent(100, 50), Some(5000));
}

#[test]
fn cpu_clamp() {
    assert_eq!(clamp_percent_centi(-5), 0);
    assert_eq!(clamp_percent_centi(0), 0);
    assert_eq!(clamp_percent_centi(4250), 4250);
    assert_eq!(clamp_percent_centi(10000), 10000);
    assert_eq!(clamp_percent_centi(20000), 10000);
}

#[test]
fn one_tick_writes_one_row_per_viable_metric() {
    let disks = vec![
        DiskInfo { mount: "C:\\".to_string(), total: 100, avail: 40 },
        DiskInfo { mount: "/proc".to_string(), total: 0, avail: 0 },
        DiskInfo { mount: "/mnt/data".to_string(), total: 200, avail: 50 },
    ];
    let plan = collect_plan(
        "202511",
        "MYHOST",
        "2025-11-03 10:00:00",
        4250,
        100,
        25,
        disks,
    );
    assert_eq!(plan.db_name, "202511@MYHOST.sqlite");
    assert_eq!(
        plan.message,
        "Wrote record into 202511@MYHOST.sqlite at 2025-11-03 10:00:00"
    );
    assert_eq!(plan.writes.len(), 4);
    assert_eq!(plan.writes[0].table, "CPU");
    assert_eq!(plan.writes[0].value_centi, 4250);
    assert_eq!(plan.writes[1].table, "RAM");
    assert_eq!(plan.writes[1].value_centi, 7500);
    assert_eq!(plan.writes[2].table, "C_Drive");
    assert_eq!(plan.writes[2].value_centi, 6000);
    assert_eq!(plan.writes[3].table, "DATA_Drive");
    assert_eq!(plan.writes[3].value_centi, 7500);
    assert!(plan.writes[0].ensure_sql.contains("CREATE TABLE IF NOT EXISTS \"CPU\""));
    assert!(plan.writes[3].insert_sql.contains("INSERT INTO \"DATA_Drive\""));
}
