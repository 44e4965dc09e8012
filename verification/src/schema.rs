use vstd::prelude::*;
use crate::label::is_sep;
use crate::strutil::{upper_matches, upper_seq};

verus! {

/// The first index at or after `from` holding `@`, or the length when none
/// does.
pub open spec fn find_at(s: Seq<char>, from: int) -> int
    decreases s.len() - from,
{
    if from < 0 || from >= s.len() {
        s.len() as int
    } else if s[from] == '@' {
        from
    } else {
        find_at(s, from + 1)
    }
}

/// How a scope filename stem splits on `@`: one `@` names a monthly scope
/// `(period, host)`, two name a per-metric scope `(period, host, metric)`,
/// and any other shape degrades to the whole stem as period, an empty host
/// and no metric.
pub open spec fn scope_parts(s: Seq<char>) -> (Seq<char>, Seq<char>, Option<Seq<char>>) {
    let i = find_at(s, 0);
    if i == s.len() {
        (s, Seq::empty(), None)
    } else {
        let j = find_at(s, i + 1);
        if j == s.len() {
            (s.take(i), s.skip(i + 1), None)
        } else {
            let k = find_at(s, j + 1);
            if k == s.len() {
                (s.take(i), s.subrange(i + 1, j), Some(s.skip(j + 1)))
            } else {
                (s, Seq::empty(), None)
            }
        }
    }
}

/// A scope filename stem, taken apart: the calendar period, the host, and,
/// for a per-metric scope, the metric.
pub struct ScopeName {
    pub period: String,
    pub host: String,
    pub metric: Option<String>,
}

fn find_at_exec(s: &str, from: usize) -> (r: usize)
    requires
        from <= s@.len(),
    ensures
        r == find_at(s@, from as int),
        from <= r <= s@.len(),
{
    let n = s.unicode_len();
    let mut i = from;
    while i < n
        invariant
            from <= i <= n,
            n == s@.len(),
            find_at(s@, from as int) == find_at(s@, i as int),
        decreases n - i,
    {
        if s.get_char(i) == '@' {
            return i;
        }
        i += 1;
    }
    i
}

/// Splits a scope filename stem on `@` into period, host and optional
/// metric, as `scope_parts` states it; a stem of any other shape degrades
/// gracefully and never fails.
pub fn split_stem_sqlite(stem: &str) -> (r: ScopeName)
    ensures
        r.period@ == scope_parts(stem@).0,
        r.host@ == scope_parts(stem@).1,
        match r.metric {
            Some(m) => scope_parts(stem@).2 == Some(m@),
            None => scope_parts(stem@).2 is None,
        },
{
    let n = stem.unicode_len();
    let i = find_at_exec(stem, 0);
    if i == n {
        return ScopeName { period: stem.to_owned(), host: String::new(), metric: None };
    }
    let j = find_at_exec(stem, i + 1);
    if j == n {
        return ScopeName {
            period: stem.substring_char(0, i).to_owned(),
            host: stem.substring_char(i + 1, n).to_owned(),
            metric: None,
        };
    }
    let k = find_at_exec(stem, j + 1);
    if k == n {
        return ScopeName {
            period: stem.substring_char(0, i).to_owned(),
            host: stem.substring_char(i + 1, j).to_owned(),
            metric: Some(stem.substring_char(j + 1, n).to_owned()),
        };
    }
    ScopeName { period: stem.to_owned(), host: String::new(), metric: None }
}

/// Whether a column name, compared without regard to ASCII case, names the
/// time column.
pub open spec fn is_time_col(c: Seq<char>) -> bool {
    upper_seq(c) == "TIMESTAMP"@ || upper_seq(c) == "TS"@ || upper_seq(c) == "TIME"@
}

/// Whether a column name, compared without regard to ASCII case, names the
/// value column.
pub open spec fn is_value_col(c: Seq<char>) -> bool {
    upper_seq(c) == "VALUE"@ || upper_seq(c) == "VAL"@
}

pub open spec fn col_match(c: Seq<char>, want_time: bool) -> bool {
    if want_time {
        is_time_col(c)
    } else {
        is_value_col(c)
    }
}

/// The first column name at or after `i` that matches, or nothing.
pub open spec fn first_col(cols: Seq<Seq<char>>, i: int, want_time: bool) -> Option<Seq<char>>
    decreases cols.len() - i,
{
    if i < 0 || i >= cols.len() {
        None
    } else if col_match(cols[i], want_time) {
        Some(cols[i])
    } else {
        first_col(cols, i + 1, want_time)
    }
}

/// How a table's columns resolve: the first time-like and the first
/// value-like column name, with the literal defaults where none matches.
pub open spec fn resolved_cols(cols: Seq<Seq<char>>) -> (Seq<char>, Seq<char>) {
    (
        match first_col(cols, 0, true) {
            Some(c) => c,
            None => "Timestamp"@,
        },
        match first_col(cols, 0, false) {
            Some(c) => c,
            None => "Value"@,
        },
    )
}

/// Both historical column shapes resolve to themselves: a table with columns
/// `(ts, value)` and one with columns `(Timestamp, Value)` each yield their
/// own column pair, so identical data read through either shape gives
/// identical point sequences.
pub proof fn lemma_canonical_column_shapes_resolve()
    ensures
        resolved_cols(seq!["ts"@, "value"@]) == ("ts"@, "value"@),
        resolved_cols(seq!["Timestamp"@, "Value"@]) == ("Timestamp"@, "Value"@),
{
    reveal_strlit("ts");
    reveal_strlit("value");
    reveal_strlit("Timestamp");
    reveal_strlit("Value");
    reveal_strlit("TS");
    reveal_strlit("TIME");
    reveal_strlit("TIMESTAMP");
    reveal_strlit("VALUE");
    reveal_strlit("VAL");
    crate::strutil::lemma_upper_seq("ts"@);
    crate::strutil::lemma_upper_seq("value"@);
    crate::strutil::lemma_upper_seq("Timestamp"@);
    crate::strutil::lemma_upper_seq("Value"@);
    assert(upper_seq("ts"@) =~= "TS"@);
    assert(upper_seq("value"@) =~= "VALUE"@);
    assert(upper_seq("Timestamp"@) =~= "TIMESTAMP"@);
    assert(upper_seq("Value"@) =~= "VALUE"@);
    assert(is_time_col("ts"@));
    assert(!is_value_col("ts"@));
    assert(is_value_col("value"@));
    assert(is_time_col("Timestamp"@));
    assert(!is_value_col("Timestamp"@));
    assert(is_value_col("Value"@));
    assert(first_col(seq!["ts"@, "value"@], 0, true) == Some("ts"@));
    assert(first_col(seq!["ts"@, "value"@], 1, false) == Some("value"@));
    assert(first_col(seq!["Timestamp"@, "Value"@], 0, true) == Some("Timestamp"@));
    assert(first_col(seq!["Timestamp"@, "Value"@], 1, false) == Some("Value"@));
}

fn is_time_col_exec(c: &str) -> (r: bool)
    ensures
        r == is_time_col(c@),
{
    upper_matches(c, "TIMESTAMP") || upper_matches(c, "TS") || upper_matches(c, "TIME")
}

fn is_value_col_exec(c: &str) -> (r: bool)
    ensures
        r == is_value_col(c@),
{
    upper_matches(c, "VALUE") || upper_matches(c, "VAL")
}

fn scan_cols(cols: &Vec<String>, want_time: bool) -> (r: Option<String>)
    ensures
        match r {
            Some(c) => first_col(cols.deep_view(), 0, want_time) == Some(c@),
            None => first_col(cols.deep_view(), 0, want_time) is None,
        },
{
    let ghost dv = cols.deep_view();
    proof {
        assert(dv.len() == cols@.len());
    }
    let mut i: usize = 0;
    while i < cols.len()
        invariant
            dv == cols.deep_view(),
            dv.len() == cols@.len(),
            forall|k: int| 0 <= k < dv.len() ==> dv[k] == cols@[k]@,
            0 <= i <= cols@.len(),
            first_col(dv, 0, want_time) == first_col(dv, i as int, want_time),
        decreases cols@.len() - i,
    {
        let hit = if want_time {
            is_time_col_exec(&cols[i])
        } else {
            is_value_col_exec(&cols[i])
        };
        if hit {
            return Some(cols[i].clone());
        }
        i += 1;
    }
    None
}

/// Resolves which of a table's columns hold the timestamp and the value:
/// the first name matching the known time names and the first matching the
/// known value names, each compared without regard to ASCII case, with the
/// literal defaults `Timestamp` and `Value` where nothing matches.
pub fn pick_cols(cols: &Vec<String>) -> (r: (String, String))
    ensures
        r.0@ == resolved_cols(cols.deep_view()).0,
        r.1@ == resolved_cols(cols.deep_view()).1,
{
    let tc = match scan_cols(cols, true) {
        Some(c) => c,
        None => String::from_str("Timestamp"),
    };
    let vc = match scan_cols(cols, false) {
        Some(c) => c,
        None => String::from_str("Value"),
    };
    (tc, vc)
}

/// The statement text that creates a metric's table and its timestamp index
/// when they are absent.
pub open spec fn ensure_sql_of(table: Seq<char>) -> Seq<char> {
    "CREATE TABLE IF NOT EXISTS \""@ + table
        + "\"(\"Timestamp\" TEXT NOT NULL, \"Value\" REAL NOT NULL); CREATE INDEX IF NOT EXISTS \"ix_"@
        + table + "_Timestamp\" ON \""@ + table + "\"(\"Timestamp\");"@
}

/// The statement text that appends one sample row to a metric's table.
pub open spec fn insert_sql_of(table: Seq<char>) -> Seq<char> {
    "INSERT INTO \""@ + table + "\"(\"Timestamp\",\"Value\") VALUES (?1, ?2)"@
}

/// The statement text that creates a metric's table and its timestamp index
/// when they are absent; running it again changes nothing.
pub fn ensure_table_sql(table: &str) -> (r: String)
    ensures
        r@ == ensure_sql_of(table@),
{
    let mut out = String::from_str("CREATE TABLE IF NOT EXISTS \"");
    out.append(table);
    out.append(
        "\"(\"Timestamp\" TEXT NOT NULL, \"Value\" REAL NOT NULL); CREATE INDEX IF NOT EXISTS \"ix_",
    );
    out.append(table);
    out.append("_Timestamp\" ON \"");
    out.append(table);
    out.append("\"(\"Timestamp\");");
    out
}

/// The statement text that appends one sample row to a metric's table, as
/// `insert_sql_of` states it.
pub fn insert_sample_sql(table: &str) -> (r: String)
    ensures
        r@ == insert_sql_of(table@),
{
    let mut out = String::from_str("INSERT INTO \"");
    out.append(table);
    out.append("\"(\"Timestamp\",\"Value\") VALUES (?1, ?2)");
    out
}

/// The query text that reads a table's rows ordered by its time column.
pub fn select_points_sql(tc: &str, vc: &str, table: &str) -> (r: String)
    ensures
        r@ == "SELECT \""@ + tc@ + "\", \""@ + vc@ + "\" FROM \""@ + table@ + "\" ORDER BY \""@
            + tc@ + "\" ASC"@,
{
    let mut out = String::from_str("SELECT \"");
    out.append(tc);
    out.append("\", \"");
    out.append(vc);
    out.append("\" FROM \"");
    out.append(table);
    out.append("\" ORDER BY \"");
    out.append(tc);
    out.append("\" ASC");
    out
}

/// The query text that lists a scope's user tables, system tables excluded.
pub fn list_tables_sql() -> (r: String)
    ensures
        r@
            == "SELECT name FROM sqlite_master WHERE type='table' AND name NOT LIKE 'sqlite_%' ORDER BY name"@,
{
    String::from_str(
        "SELECT name FROM sqlite_master WHERE type='table' AND name NOT LIKE 'sqlite_%' ORDER BY name",
    )
}

/// The index after the last path separator, or zero when there is none.
pub open spec fn comp_start(s: Seq<char>) -> int
    decreases s.len(),
{
    if s.len() == 0 {
        0
    } else if is_sep(s.last()) {
        s.len() as int
    } else {
        comp_start(s.drop_last())
    }
}

/// The index of the last dot, or minus one when there is none.
pub open spec fn last_dot(s: Seq<char>) -> int
    decreases s.len(),
{
    if s.len() == 0 {
        -1
    } else if s.last() == '.' {
        s.len() - 1
    } else {
        last_dot(s.drop_last())
    }
}

/// A path with its extension replaced by `json`: the text from the last dot
/// of the final path component on is dropped, and `.json` appended; a
/// component without a dot after its first character just gains `.json`.
pub open spec fn json_path_of(s: Seq<char>) -> Seq<char> {
    if last_dot(s) > comp_start(s) {
        s.take(last_dot(s)) + ".json"@
    } else {
        s + ".json"@
    }
}

/// The sibling path an exported scope is serialized to, as `json_path_of`
/// states it.
pub fn to_json_path(sqlite_path: &str) -> (r: String)
    ensures
        r@ == json_path_of(sqlite_path@),
{
    let ghost s = sqlite_path@;
    let n = sqlite_path.unicode_len();
    let mut cs: usize = 0;
    let mut dot: usize = 0;
    let mut has_dot = false;
    let mut i: usize = 0;
    while i < n
        invariant
            s == sqlite_path@,
            0 <= i <= n,
            n == s.len(),
            cs as int == comp_start(s.take(i as int)),
            cs <= i,
            has_dot ==> dot as int == last_dot(s.take(i as int)) && dot < i,
            !has_dot ==> last_dot(s.take(i as int)) == -1,
        decreases n - i,
    {
        let c = sqlite_path.get_char(i);
        proof {
            assert(s.take(i + 1).drop_last() =~= s.take(i as int));
            assert(s.take(i + 1).last() == s[i as int]);
        }
        if c == '/' || c == '\\' {
            cs = i + 1;
        }
        if c == '.' {
            dot = i;
            has_dot = true;
        }
        i += 1;
    }
    proof {
        assert(s.take(n as int) =~= s);
    }
    if has_dot && dot > cs {
        let mut out = sqlite_path.substring_char(0, dot).to_owned();
        out.append(".json");
        out
    } else {
        let mut out = sqlite_path.to_owned();
        out.append(".json");
        out
    }
}

} // verus!
