use vstd::prelude::*;
use crate::render::{plan_matches, render_series, PlanArgs, RenderPlan};
use crate::schema::{scope_parts, split_stem_sqlite};
use crate::series::{points_of, points_from_rows, SampleRow};
use crate::strutil::{upper_matches, upper_seq};

verus! {

/// One table of a scope, read back: its name and its stored rows, ordered by
/// the resolved time column.
pub struct TableData {
    pub name: String,
    pub rows: Vec<SampleRow>,
}

/// One discovered scope: its filename stem and the tables found in it.
pub struct ScopeData {
    pub stem: String,
    pub tables: Vec<TableData>,
}

/// The index of the first table named `stats`, compared without regard to
/// ASCII case, searched from `i`; the length when none is.
pub open spec fn first_stats(tables: Seq<TableData>, i: int) -> int
    decreases tables.len() - i,
{
    if i < 0 || i >= tables.len() {
        tables.len() as int
    } else if upper_seq(tables[i].name@) == "STATS"@ {
        i
    } else {
        first_stats(tables, i + 1)
    }
}

/// Which table a per-metric scope reads: the one named `stats`, compared
/// without regard to ASCII case, and the first listed table otherwise.
pub open spec fn chosen_index(tables: Seq<TableData>) -> int {
    if first_stats(tables, 0) == tables.len() {
        0
    } else {
        first_stats(tables, 0)
    }
}

/// The charts a monthly scope yields: one per table whose rows give any
/// points, named by joining the scope stem and the table name.
pub open spec fn table_args(
    stem: Seq<char>,
    period: Seq<char>,
    host: Seq<char>,
    tables: Seq<TableData>,
) -> Seq<PlanArgs>
    decreases tables.len(),
{
    if tables.len() == 0 {
        Seq::empty()
    } else {
        table_args(stem, period, host, tables.drop_last()) + {
            let tb = tables.last();
            let pts = points_of(tb.rows@);
            if pts.len() == 0 {
                Seq::empty()
            } else {
                seq![
                    PlanArgs {
                        out_name: stem + "@"@ + tb.name@ + ".png"@,
                        period: period,
                        host: host,
                        metric: tb.name@,
                        points: pts,
                    },
                ]
            }
        }
    }
}

/// The charts one scope yields. A scope without tables yields none. A
/// per-metric scope yields at most one, from its chosen table, named by the
/// stem alone. A monthly scope yields one per table with points.
pub open spec fn scope_args(sc: ScopeData) -> Seq<PlanArgs> {
    let parts = scope_parts(sc.stem@);
    if sc.tables@.len() == 0 {
        Seq::empty()
    } else {
        match parts.2 {
            Some(mt) => {
                let pts = points_of(sc.tables@[chosen_index(sc.tables@)].rows@);
                if pts.len() == 0 {
                    Seq::empty()
                } else {
                    seq![
                        PlanArgs {
                            out_name: sc.stem@ + ".png"@,
                            period: parts.0,
                            host: parts.1,
                            metric: mt,
                            points: pts,
                        },
                    ]
                }
            },
            None => table_args(sc.stem@, parts.0, parts.1, sc.tables@),
        }
    }
}

/// The charts a whole graphing run yields, scope by scope, in order.
pub open spec fn all_args(scopes: Seq<ScopeData>) -> Seq<PlanArgs>
    decreases scopes.len(),
{
    if scopes.len() == 0 {
        Seq::empty()
    } else {
        all_args(scopes.drop_last()) + scope_args(scopes.last())
    }
}

fn find_stats_table(tables: &Vec<TableData>) -> (r: usize)
    requires
        tables@.len() > 0,
    ensures
        r == chosen_index(tables@),
        r < tables@.len(),
{
    let mut j: usize = 0;
    while j < tables.len()
        invariant
            0 <= j <= tables@.len(),
            first_stats(tables@, 0) == first_stats(tables@, j as int),
        decreases tables@.len() - j,
    {
        if upper_matches(tables[j].name.as_str(), "STATS") {
            return j;
        }
        j += 1;
    }
    0
}

/// One graphing run over everything the directory scan and the store reads
/// turned up: classifies each scope by its stem, reads each relevant table's
/// rows into points, and lays out one chart per series with points, exactly
/// as `all_args` and `plan_matches` state.
pub fn run_graph(scopes: Vec<ScopeData>) -> (r: Vec<RenderPlan>)
    ensures
        r@.len() == all_args(scopes@).len(),
        forall|i: int| 0 <= i < r@.len() ==> #[trigger] plan_matches(r@[i], all_args(scopes@)[i]),
{
    let mut out: Vec<RenderPlan> = Vec::new();
    let mut si: usize = 0;
    while si < scopes.len()
        invariant
            0 <= si <= scopes@.len(),
            out@.len() == all_args(scopes@.take(si as int)).len(),
            forall|i: int| 0 <= i < out@.len() ==> #[trigger] plan_matches(
                out@[i],
                all_args(scopes@.take(si as int))[i],
            ),
        decreases scopes@.len() - si,
    {
        let ghost pre_args = all_args(scopes@.take(si as int));
        proof {
            assert(scopes@.take(si + 1).drop_last() =~= scopes@.take(si as int));
            assert(scopes@.take(si + 1).last() == scopes@[si as int]);
            assert(all_args(scopes@.take(si + 1)) == pre_args + scope_args(scopes@[si as int]));
        }
        let sc = &scopes[si];
        if sc.tables.len() == 0 {
            proof {
                assert(scope_args(scopes@[si as int]) =~= Seq::<PlanArgs>::empty());
                assert(all_args(scopes@.take(si + 1)) =~= pre_args);
            }
            si += 1;
            continue;
        }
        let parts = split_stem_sqlite(sc.stem.as_str());
        match parts.metric {
            Some(mt) => {
                let idx = find_stats_table(&sc.tables);
                let pts = points_from_rows(&sc.tables[idx].rows);
                let mut out_name = sc.stem.clone();
                out_name.append(".png");
                let plan = render_series(
                    out_name.as_str(),
                    parts.period.as_str(),
                    parts.host.as_str(),
                    mt.as_str(),
                    pts,
                );
                match plan {
                    Some(p) => {
                        proof {
                            assert(scope_args(scopes@[si as int]) =~= seq![
                                PlanArgs {
                                    out_name: sc.stem@ + ".png"@,
                                    period: scope_parts(sc.stem@).0,
                                    host: scope_parts(sc.stem@).1,
                                    metric: mt@,
                                    points: points_of(sc.tables@[chosen_index(sc.tables@)].rows@),
                                },
                            ]);
                            assert(out_name@ =~= sc.stem@ + ".png"@);
                        }
                        out.push(p);
                        proof {
                            assert(forall|i: int| 0 <= i < pre_args.len() ==> all_args(
                                scopes@.take(si + 1),
                            )[i] == pre_args[i]);
                        }
                    },
                    None => {
                        proof {
                            assert(scope_args(scopes@[si as int]) =~= Seq::<PlanArgs>::empty());
                            assert(all_args(scopes@.take(si + 1)) =~= pre_args);
                        }
                    },
                }
            },
            None => {
                let ghost stem_s = sc.stem@;
                let ghost period_s = scope_parts(sc.stem@).0;
                let ghost host_s = scope_parts(sc.stem@).1;
                let mut ti: usize = 0;
                while ti < sc.tables.len()
                    invariant
                        0 <= ti <= sc.tables@.len(),
                        sc == &scopes@[si as int],
                        si < scopes@.len(),
                        scope_parts(sc.stem@).2 is None,
                        stem_s == sc.stem@,
                        period_s == scope_parts(sc.stem@).0,
                        host_s == scope_parts(sc.stem@).1,
                        parts.period@ == period_s,
                        parts.host@ == host_s,
                        pre_args == all_args(scopes@.take(si as int)),
                        out@.len() == pre_args.len() + table_args(
                            stem_s,
                            period_s,
                            host_s,
                            sc.tables@.take(ti as int),
                        ).len(),
                        forall|i: int| 0 <= i < out@.len() ==> #[trigger] plan_matches(
                            out@[i],
                            (pre_args + table_args(
                                stem_s,
                                period_s,
                                host_s,
                                sc.tables@.take(ti as int),
                            ))[i],
                        ),
                    decreases sc.tables@.len() - ti,
                {
                    let ghost done = table_args(stem_s, period_s, host_s, sc.tables@.take(ti as int));
                    proof {
                        assert(sc.tables@.take(ti + 1).drop_last() =~= sc.tables@.take(ti as int));
                        assert(sc.tables@.take(ti + 1).last() == sc.tables@[ti as int]);
                        assert(table_args(stem_s, period_s, host_s, sc.tables@.take(ti + 1))
                            == done + {
                            let tb = sc.tables@[ti as int];
                            let pts = points_of(tb.rows@);
                            if pts.len() == 0 {
                                Seq::<PlanArgs>::empty()
                            } else {
                                seq![
                                    PlanArgs {
                                        out_name: stem_s + "@"@ + tb.name@ + ".png"@,
                                        period: period_s,
                                        host: host_s,
                                        metric: tb.name@,
                                        points: pts,
                                    },
                                ]
                            }
                        });
                    }
                    let pts = points_from_rows(&sc.tables[ti].rows);
                    let ghost pts_v = pts@;
                    let mut out_name = sc.stem.clone();
                    out_name.append("@");
                    out_name.append(sc.tables[ti].name.as_str());
                    out_name.append(".png");
                    proof {
                        assert(out_name@ =~= stem_s + "@"@ + sc.tables@[ti as int].name@ + ".png"@);
                    }
                    let out_ref = out_name.as_str();
                    let period_ref = parts.period.as_str();
                    let host_ref = parts.host.as_str();
                    let metric_ref = sc.tables[ti].name.as_str();
                    let plan = render_series(out_ref, period_ref, host_ref, metric_ref, pts);
                    match plan {
                        Some(p) => {
                            let ghost prev_out = out@;
                            out.push(p);
                            proof {
                                let expected = pre_args + table_args(
                                    stem_s,
                                    period_s,
                                    host_s,
                                    sc.tables@.take(ti + 1),
                                );
                                assert(out@.len() == expected.len());
                                assert forall|i: int| 0 <= i < out@.len() implies #[trigger]
                                    plan_matches(out@[i], expected[i]) by {
                                    if i < prev_out.len() {
                                        assert(out@[i] == prev_out[i]);
                                        assert(expected[i] == (pre_args + done)[i]);
                                        assert(plan_matches(prev_out[i], (pre_args + done)[i]));
                                    } else {
                                        assert(out@[i] == p);
                                        let tb = sc.tables@[ti as int];
                                        let elem = PlanArgs {
                                            out_name: stem_s + "@"@ + tb.name@ + ".png"@,
                                            period: period_s,
                                            host: host_s,
                                            metric: tb.name@,
                                            points: points_of(tb.rows@),
                                        };
                                        assert(table_args(
                                            stem_s,
                                            period_s,
                                            host_s,
                                            sc.tables@.take(ti + 1),
                                        ) == done + seq![elem]);
                                        assert(expected[i] == elem);
                                        let rargs = PlanArgs {
                                            out_name: out_ref@,
                                            period: period_ref@,
                                            host: host_ref@,
                                            metric: metric_ref@,
                                            points: pts_v,
                                        };
                                        assert(plan_matches(p, rargs));
                                        assert(rargs.out_name == elem.out_name);
                                        assert(rargs.period == elem.period);
                                        assert(rargs.host == elem.host);
                                        assert(rargs.metric == elem.metric);
                                        assert(rargs.points == elem.points);
                                        assert(rargs == elem);
                                    }
                                }
                            }
                        },
                        None => {
                            proof {
                                assert(table_args(stem_s, period_s, host_s, sc.tables@.take(ti + 1))
                                    =~= done);
                            }
                        },
                    }
                    ti += 1;
                }
                proof {
                    assert(sc.tables@.take(sc.tables@.len() as int) =~= sc.tables@);
                    assert(all_args(scopes@.take(si + 1)) == pre_args + table_args(
                        stem_s,
                        period_s,
                        host_s,
                        sc.tables@,
                    ));
                }
            },
        }
        si += 1;
    }
    proof {
        assert(scopes@.take(scopes@.len() as int) =~= scopes@);
    }
    out
}

} // verus!
