use vstd::prelude::*;
use crate::calendar::{max_epoch, min_epoch};
use crate::parse::{parse_ts, parse_ts_spec};

verus! {

/// One stored row, read back as text and a value in hundredths of a percent.
pub struct SampleRow {
    pub ts: String,
    pub value_centi: i64,
}

/// One chart point: an epoch second and a value in hundredths of a percent.
#[derive(Clone, Copy, Debug, PartialEq, Eq, Structural)]
pub struct SeriesPoint {
    pub t: i64,
    pub value_centi: i64,
}

/// Whether a point's instant lies in the calendar range the library stores.
pub open spec fn point_in_range(p: SeriesPoint) -> bool {
    min_epoch() <= p.t <= max_epoch()
}

/// The points a sequence of rows yields: each row whose timestamp text is
/// accepted contributes one point, in row order; every other row is dropped.
pub open spec fn points_of(rows: Seq<SampleRow>) -> Seq<SeriesPoint>
    decreases rows.len(),
{
    if rows.len() == 0 {
        Seq::empty()
    } else {
        points_of(rows.drop_last()) + match parse_ts_spec(rows.last().ts@) {
            Some(t) => seq![SeriesPoint { t: t as i64, value_centi: rows.last().value_centi }],
            None => Seq::empty(),
        }
    }
}

pub proof fn lemma_points_of_in_range(rows: Seq<SampleRow>)
    ensures
        forall|i: int| 0 <= i < points_of(rows).len() ==> #[trigger] point_in_range(
            points_of(rows)[i],
        ),
    decreases rows.len(),
{
    if rows.len() > 0 {
        lemma_points_of_in_range(rows.drop_last());
        let prefix = points_of(rows.drop_last());
        match parse_ts_spec(rows.last().ts@) {
            Some(t) => {
                let s = rows.last().ts@;
                assert(crate::parse::ts_ok(s));
                crate::parse::lemma_epoch_range(
                    crate::parse::num4(s, 0),
                    crate::parse::num2(s, 5),
                    crate::parse::num2(s, 8),
                    crate::parse::num2(s, 11),
                    crate::parse::num2(s, 14),
                    crate::parse::num2(s, 17),
                );
                crate::calendar::lemma_epoch_i64_bounds();
                assert(min_epoch() <= t <= max_epoch());
                assert((t as i64) as int == t);
                assert forall|i: int| 0 <= i < points_of(rows).len() implies #[trigger]
                    point_in_range(points_of(rows)[i]) by {
                    if i < prefix.len() {
                        assert(points_of(rows)[i] == prefix[i]);
                        assert(point_in_range(prefix[i]));
                    } else {
                        assert(points_of(rows)[i].t == t as i64);
                    }
                }
            },
            None => {
                assert forall|i: int| 0 <= i < points_of(rows).len() implies #[trigger]
                    point_in_range(points_of(rows)[i]) by {
                    assert(points_of(rows) =~= prefix);
                    assert(point_in_range(prefix[i]));
                }
            },
        }
    }
}

/// Reads the points out of a sequence of stored rows, as `points_of` states
/// it: rows whose timestamp parses contribute one point each, in order, and
/// rows whose timestamp matches no accepted format are silently dropped.
pub fn points_from_rows(rows: &Vec<SampleRow>) -> (r: Vec<SeriesPoint>)
    ensures
        r@ == points_of(rows@),
        forall|i: int| 0 <= i < r@.len() ==> #[trigger] point_in_range(r@[i]),
{
    let mut out: Vec<SeriesPoint> = Vec::new();
    let mut i: usize = 0;
    while i < rows.len()
        invariant
            0 <= i <= rows@.len(),
            out@ == points_of(rows@.take(i as int)),
        decreases rows@.len() - i,
    {
        proof {
            assert(rows@.take(i + 1).drop_last() =~= rows@.take(i as int));
            assert(rows@.take(i + 1).last() == rows@[i as int]);
        }
        match parse_ts(rows[i].ts.as_str()) {
            Some(t) => {
                out.push(SeriesPoint { t, value_centi: rows[i].value_centi });
                proof {
                    assert(out@ =~= points_of(rows@.take(i + 1)));
                }
            },
            None => {
                proof {
                    assert(out@ =~= points_of(rows@.take(i + 1)));
                }
            },
        }
        i += 1;
    }
    proof {
        assert(rows@.take(rows@.len() as int) =~= rows@);
        lemma_points_of_in_range(rows@);
    }
    out
}

} // verus!
