use vstd::prelude::*;
use crate::label::{label_for_mount_point, mount_label};
use crate::sample::{
    clamp_centi, clamp_percent_centi, sample_disk_percent, sample_ram_percent, used_percent_centi,
};
use crate::schema::{ensure_sql_of, ensure_table_sql, insert_sample_sql, insert_sql_of};
use crate::timefmt::{collect_message, scope_filename};

verus! {

/// One mount as the machine reports it: its mount point and its total and
/// available space.
pub struct DiskInfo {
    pub mount: String,
    pub total: u64,
    pub avail: u64,
}

/// One row the collector will write: the metric's table, the statements that
/// create the table if absent and append the row, and the sampled value in
/// hundredths of a percent.
pub struct MetricWrite {
    pub table: String,
    pub ensure_sql: String,
    pub insert_sql: String,
    pub value_centi: u64,
}

/// Everything one sampling tick writes: the scope file it goes to, one write
/// per successfully sampled metric, and the confirmation line to print.
pub struct CollectPlan {
    pub db_name: String,
    pub writes: Vec<MetricWrite>,
    pub message: String,
}

/// Whether one planned write is for the given table with the given value,
/// statements included.
pub open spec fn write_matches(w: MetricWrite, table: Seq<char>, v: int) -> bool {
    &&& w.table@ == table
    &&& w.ensure_sql@ == ensure_sql_of(table)
    &&& w.insert_sql@ == insert_sql_of(table)
    &&& w.value_centi == v
}

/// The disk rows one tick yields: each mount with a positive reported total
/// contributes its label and used share, in order; the others are skipped.
pub open spec fn disk_writes(disks: Seq<DiskInfo>) -> Seq<(Seq<char>, int)>
    decreases disks.len(),
{
    if disks.len() == 0 {
        Seq::empty()
    } else {
        disk_writes(disks.drop_last()) + {
            let d = disks.last();
            if d.total == 0 {
                Seq::empty()
            } else {
                seq![(mount_label(d.mount@), used_percent_centi(d.total as int, d.avail as int))]
            }
        }
    }
}

/// Lays out one sampling tick: the scope file named for the period and host,
/// one write for CPU (clamped onto the percentage scale), one for RAM, and
/// one per mount with a positive reported total, each with its create-if-
/// absent and insert statements, and the confirmation line.
pub fn collect_plan(
    period: &str,
    host: &str,
    ts: &str,
    cpu_raw_centi: i64,
    mem_total: u64,
    mem_avail: u64,
    disks: Vec<DiskInfo>,
) -> (r: CollectPlan)
    ensures
        r.db_name@ == period@ + "@"@ + host@ + ".sqlite"@,
        r.message@ == "Wrote record into "@ + r.db_name@ + " at "@ + ts@,
        r.writes@.len() == 2 + disk_writes(disks@).len(),
        write_matches(r.writes@[0], "CPU"@, clamp_centi(cpu_raw_centi as int)),
        write_matches(
            r.writes@[1],
            "RAM"@,
            used_percent_centi(mem_total as int, mem_avail as int),
        ),
        forall|i: int| 2 <= i < r.writes@.len() ==> #[trigger] write_matches(
            r.writes@[i],
            disk_writes(disks@)[i - 2].0,
            disk_writes(disks@)[i - 2].1,
        ),
{
    let db_name = scope_filename(period, host);
    let message = collect_message(db_name.as_str(), ts);
    let mut writes: Vec<MetricWrite> = Vec::new();
    writes.push(
        MetricWrite {
            table: String::from_str("CPU"),
            ensure_sql: ensure_table_sql("CPU"),
            insert_sql: insert_sample_sql("CPU"),
            value_centi: clamp_percent_centi(cpu_raw_centi),
        },
    );
    writes.push(
        MetricWrite {
            table: String::from_str("RAM"),
            ensure_sql: ensure_table_sql("RAM"),
            insert_sql: insert_sample_sql("RAM"),
            value_centi: sample_ram_percent(mem_total, mem_avail),
        },
    );
    let mut di: usize = 0;
    while di < disks.len()
        invariant
            0 <= di <= disks@.len(),
            writes@.len() == 2 + disk_writes(disks@.take(di as int)).len(),
            write_matches(writes@[0], "CPU"@, clamp_centi(cpu_raw_centi as int)),
            write_matches(
                writes@[1],
                "RAM"@,
                used_percent_centi(mem_total as int, mem_avail as int),
            ),
            forall|i: int| 2 <= i < writes@.len() ==> #[trigger] write_matches(
                writes@[i],
                disk_writes(disks@.take(di as int))[i - 2].0,
                disk_writes(disks@.take(di as int))[i - 2].1,
            ),
        decreases disks@.len() - di,
    {
        let ghost done = disk_writes(disks@.take(di as int));
        proof {
            assert(disks@.take(di + 1).drop_last() =~= disks@.take(di as int));
            assert(disks@.take(di + 1).last() == disks@[di as int]);
        }
        match sample_disk_percent(disks[di].total, disks[di].avail) {
            Some(v) => {
                let label = label_for_mount_point(disks[di].mount.as_str());
                let ghost prev = writes@;
                writes.push(
                    MetricWrite {
                        ensure_sql: ensure_table_sql(label.as_str()),
                        insert_sql: insert_sample_sql(label.as_str()),
                        table: label,
                        value_centi: v,
                    },
                );
                proof {
                    let now_args = disk_writes(disks@.take(di + 1));
                    assert(now_args =~= done + seq![
                        (
                            mount_label(disks@[di as int].mount@),
                            used_percent_centi(
                                disks@[di as int].total as int,
                                disks@[di as int].avail as int,
                            ),
                        ),
                    ]);
                    assert forall|i: int| 2 <= i < writes@.len() implies #[trigger] write_matches(
                        writes@[i],
                        now_args[i - 2].0,
                        now_args[i - 2].1,
                    ) by {
                        if i < prev.len() {
                            assert(writes@[i] == prev[i]);
                            assert(now_args[i - 2] == done[i - 2]);
                            assert(write_matches(prev[i], done[i - 2].0, done[i - 2].1));
                        } else {
                            assert(writes@[i] == writes@.last());
                        }
                    }
                }
            },
            None => {
                proof {
                    assert(disk_writes(disks@.take(di + 1)) =~= done);
                }
            },
        }
        di += 1;
    }
    proof {
        assert(disks@.take(disks@.len() as int) =~= disks@);
    }
    CollectPlan { db_name, writes, message }
}

} // verus!
