use vstd::prelude::*;
use crate::calendar::{
    civil_of_day, civil_from_epoch, day_number, days_in_month, days_in_month_exec, epoch_from_civil,
    epoch_of, lemma_epoch_i64_bounds, max_epoch, min_epoch, valid_civil,
};
use crate::label::{y_label, y_label_of};
use crate::parse::lemma_epoch_range;
use crate::series::{point_in_range, SeriesPoint};
use crate::strutil::push_char;

verus! {

/// Everything the drawing backend needs for one chart: where to write it,
/// its captions, the horizontal range and day gridlines, and the points.
/// The vertical axis is always the fixed percentage scale `0` to `100`.
pub struct RenderPlan {
    pub out_name: String,
    pub title: String,
    pub y_caption: String,
    pub x_min: i64,
    pub x_max: i64,
    pub x_label_count: u32,
    pub gridline_xs: Vec<i64>,
    pub points: Vec<SeriesPoint>,
}

/// What one chart is drawn from: the inputs the renderer was handed.
pub ghost struct PlanArgs {
    pub out_name: Seq<char>,
    pub period: Seq<char>,
    pub host: Seq<char>,
    pub metric: Seq<char>,
    pub points: Seq<SeriesPoint>,
}

/// The day-start instants of days `2..=d` of the given month, kept when they
/// fall within the closed range `lo..=hi`.
pub open spec fn grid_days(y: int, m: int, d: int, lo: int, hi: int) -> Seq<i64>
    decreases d,
{
    if d < 2 {
        Seq::empty()
    } else {
        grid_days(y, m, d - 1, lo, hi) + {
            let e = epoch_of(y, m, d, 0, 0, 0);
            if lo <= e <= hi {
                seq![e as i64]
            } else {
                Seq::empty()
            }
        }
    }
}

/// How a produced chart plan relates to what the renderer was handed: the
/// title and captions are composed from the scope fields, the horizontal
/// range spans exactly the data, and the gridlines are the day starts of the
/// month holding the first point, clipped to that range.
pub open spec fn plan_matches(p: RenderPlan, a: PlanArgs) -> bool {
    let ymd = civil_of_day(p.x_min as int / 86400 + day_number(1970, 1, 1));
    &&& a.points.len() > 0
    &&& p.out_name@ == a.out_name
    &&& p.title@ == a.period + seq![' '] + a.host + seq![' '] + a.metric
    &&& p.y_caption@ == y_label_of(a.metric)
    &&& p.points@ == a.points
    &&& p.x_min == a.points[0].t
    &&& p.x_max == a.points[a.points.len() - 1].t
    &&& p.gridline_xs@ == grid_days(
        ymd.0,
        ymd.1,
        days_in_month(ymd.0, ymd.1),
        p.x_min as int,
        p.x_max as int,
    )
    &&& p.x_label_count == days_in_month(ymd.0, ymd.1) - 1
}

/// Lays out one chart: nothing at all for an empty point sequence (no output
/// is produced, and that is success), else a plan whose geometry
/// `plan_matches` states: a fixed vertical percentage scale, a horizontal
/// range spanning the data, and one gridline per calendar day of the first
/// point's month, clipped to the data's range.
pub fn render_series(
    out_name: &str,
    period: &str,
    host: &str,
    metric: &str,
    points: Vec<SeriesPoint>,
) -> (r: Option<RenderPlan>)
    requires
        forall|i: int| 0 <= i < points@.len() ==> #[trigger] point_in_range(points@[i]),
    ensures
        r is None <==> points@.len() == 0,
        match r {
            Some(p) => plan_matches(
                p,
                PlanArgs {
                    out_name: out_name@,
                    period: period@,
                    host: host@,
                    metric: metric@,
                    points: points@,
                },
            ),
            None => true,
        },
{
    if points.len() == 0 {
        return None;
    }
    let x_min = points[0].t;
    let x_max = points[points.len() - 1].t;
    proof {
        assert(point_in_range(points@[0]));
        assert(point_in_range(points@[points@.len() - 1]));
    }
    let (y, m, _d) = civil_from_epoch(x_min);
    let last_day = days_in_month_exec(y, m);
    let mut grid: Vec<i64> = Vec::new();
    let mut day: u32 = 2;
    while day <= last_day
        invariant
            2 <= day <= last_day + 1,
            last_day == days_in_month(y as int, m as int),
            y <= 9999,
            1 <= m <= 12,
            grid@ == grid_days(y as int, m as int, day - 1, x_min as int, x_max as int),
        decreases last_day + 1 - day,
    {
        proof {
            assert(valid_civil(y as int, m as int, day as int, 0, 0, 0));
            lemma_epoch_range(y as int, m as int, day as int, 0, 0, 0);
            lemma_epoch_i64_bounds();
        }
        let e = epoch_from_civil(y, m, day, 0, 0, 0);
        if x_min <= e && e <= x_max {
            grid.push(e);
        }
        proof {
            assert(grid@ =~= grid_days(y as int, m as int, day as int, x_min as int, x_max as int));
        }
        day += 1;
    }
    let mut title = String::from_str(period);
    push_char(&mut title, ' ');
    title.append(host);
    push_char(&mut title, ' ');
    title.append(metric);
    proof {
        assert(title@ =~= period@ + seq![' '] + host@ + seq![' '] + metric@);
    }
    let plan = RenderPlan {
        out_name: out_name.to_owned(),
        title,
        y_caption: String::from_str(y_label(metric)),
        x_min,
        x_max,
        x_label_count: last_day - 1,
        gridline_xs: grid,
        points,
    };
    Some(plan)
}

} // verus!
