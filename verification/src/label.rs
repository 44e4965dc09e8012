use vstd::prelude::*;
use crate::strutil::{
    lemma_upper_seq_push, push_char, upper_char, upper_char_exec, upper_matches, upper_seq,
};

verus! {

/// Whether a character separates path segments in a mount-point string.
pub open spec fn is_sep(c: char) -> bool {
    c == '/' || c == '\\'
}

/// The sequence with its trailing separators removed.
pub open spec fn trim_trailing_seps(s: Seq<char>) -> Seq<char>
    decreases s.len(),
{
    if s.len() > 0 && is_sep(s.last()) {
        trim_trailing_seps(s.drop_last())
    } else {
        s
    }
}

/// The maximal separator-free suffix of the sequence.
pub open spec fn tail_run(s: Seq<char>) -> Seq<char>
    decreases s.len(),
{
    if s.len() == 0 || is_sep(s.last()) {
        Seq::empty()
    } else {
        tail_run(s.drop_last()).push(s.last())
    }
}

/// The last non-empty path segment of a mount-point string, empty when the
/// string holds no segment at all.
pub open spec fn last_segment(s: Seq<char>) -> Seq<char> {
    tail_run(trim_trailing_seps(s))
}

/// The sequence with every colon removed.
pub open spec fn strip_colons(s: Seq<char>) -> Seq<char>
    decreases s.len(),
{
    if s.len() == 0 {
        Seq::empty()
    } else if s.last() == ':' {
        strip_colons(s.drop_last())
    } else {
        strip_colons(s.drop_last()).push(s.last())
    }
}

/// The canonical metric label for a mount point: a drive-letter mount
/// `"X:..."` becomes `"X_Drive"` with the letter uppercased; any other mount
/// becomes its last non-empty path segment, colons stripped and uppercased,
/// with `"_Drive"` appended; a mount with no segment becomes `"Disk_Drive"`.
pub open spec fn mount_label(s: Seq<char>) -> Seq<char> {
    if s.len() >= 2 && s[1] == ':' {
        seq![upper_char(s[0])] + "_Drive"@
    } else if last_segment(s).len() == 0 {
        "Disk_Drive"@
    } else {
        upper_seq(strip_colons(last_segment(s))) + "_Drive"@
    }
}

/// A mount point that starts with a drive letter and a colon always labels
/// as that letter, uppercased, with `_Drive` appended.
pub proof fn lemma_mount_label_drive_letter(s: Seq<char>)
    requires
        s.len() >= 2,
        s[1] == ':',
    ensures
        mount_label(s) == seq![upper_char(s[0])] + "_Drive"@,
{
}

/// Any other mount point labels as its last non-empty path segment, colons
/// stripped and uppercased, with `_Drive` appended, and as the fixed
/// `Disk_Drive` when it has no segment at all.
pub proof fn lemma_mount_label_segment(s: Seq<char>)
    requires
        !(s.len() >= 2 && s[1] == ':'),
    ensures
        last_segment(s).len() == 0 ==> mount_label(s) == "Disk_Drive"@,
        last_segment(s).len() > 0 ==> mount_label(s) == upper_seq(strip_colons(last_segment(s)))
            + "_Drive"@,
{
}

proof fn lemma_strip_colons_push(s: Seq<char>, c: char)
    ensures
        strip_colons(s.push(c)) == if c == ':' {
            strip_colons(s)
        } else {
            strip_colons(s).push(c)
        },
{
    assert(s.push(c).drop_last() =~= s);
    assert(s.push(c).len() > 0);
}

/// The canonical metric label for a filesystem mount point, as `mount_label`
/// states it.
pub fn label_for_mount_point(mp: &str) -> (r: String)
    ensures
        r@ == mount_label(mp@),
{
    let ghost s = mp@;
    let n = mp.unicode_len();
    if n >= 2 && mp.get_char(1) == ':' {
        let mut out = String::new();
        push_char(&mut out, upper_char_exec(mp.get_char(0)));
        out.append("_Drive");
        proof {
            assert(out@ =~= seq![upper_char(s[0])] + "_Drive"@);
        }
        return out;
    }
    // Skip separators at the end of the string.
    let mut end: usize = n;
    proof {
        assert(s.take(n as int) =~= s);
    }
    while end > 0 && sep_exec(mp.get_char(end - 1))
        invariant
            s == mp@,
            0 <= end <= n,
            n == s.len(),
            trim_trailing_seps(s.take(end as int)) == trim_trailing_seps(s),
        decreases end,
    {
        proof {
            assert(s.take(end as int).drop_last() =~= s.take(end - 1));
            assert(s.take(end as int).last() == s[end - 1]);
            assert(is_sep(s.take(end as int).last()));
        }
        end -= 1;
    }
    proof {
        if end > 0 {
            assert(s.take(end as int).last() == s[end - 1]);
            assert(!is_sep(s.take(end as int).last()));
        } else {
            assert(s.take(0) =~= Seq::<char>::empty());
        }
        assert(trim_trailing_seps(s) == s.take(end as int));
    }
    // Walk left over the maximal separator-free run that ends there.
    let mut start: usize = end;
    while start > 0 && !sep_exec(mp.get_char(start - 1))
        invariant
            s == mp@,
            0 <= start <= end <= n,
            n == s.len(),
            tail_run(s.take(end as int)) =~= tail_run(s.take(start as int)) + s.subrange(
                start as int,
                end as int,
            ),
        decreases start,
    {
        proof {
            assert(s.take(start as int).drop_last() =~= s.take(start - 1));
            assert(s.take(start as int).last() == s[start - 1]);
            assert(!is_sep(s.take(start as int).last()));
            assert(tail_run(s.take(start as int)) == tail_run(s.take(start - 1)).push(
                s[start - 1],
            ));
            assert(tail_run(s.take(start - 1)).push(s[start - 1]) + s.subrange(
                start as int,
                end as int,
            ) =~= tail_run(s.take(start - 1)) + s.subrange(start - 1, end as int));
        }
        start -= 1;
    }
    proof {
        if start > 0 {
            assert(s.take(start as int).last() == s[start - 1]);
            assert(is_sep(s.take(start as int).last()));
            assert(tail_run(s.take(start as int)) =~= Seq::<char>::empty());
        } else {
            assert(s.take(0) =~= Seq::<char>::empty());
        }
        assert(last_segment(s) =~= s.subrange(start as int, end as int));
    }
    if start == end {
        let out = String::from_str("Disk_Drive");
        return out;
    }
    // Strip colons and uppercase the segment.
    let mut out = String::new();
    let mut i: usize = start;
    while i < end
        invariant
            s == mp@,
            start <= i <= end <= n,
            n == s.len(),
            out@ == upper_seq(strip_colons(s.subrange(start as int, i as int))),
        decreases end - i,
    {
        let c = mp.get_char(i);
        proof {
            assert(s.subrange(start as int, i + 1) =~= s.subrange(start as int, i as int).push(
                s[i as int],
            ));
            lemma_strip_colons_push(s.subrange(start as int, i as int), s[i as int]);
            if s[i as int] != ':' {
                lemma_upper_seq_push(strip_colons(s.subrange(start as int, i as int)), s[i as int]);
            }
        }
        if c != ':' {
            push_char(&mut out, upper_char_exec(c));
        }
        i += 1;
    }
    out.append("_Drive");
    proof {
        assert(out@ == upper_seq(strip_colons(last_segment(s))) + "_Drive"@);
    }
    out
}

fn sep_exec(c: char) -> (r: bool)
    ensures
        r == is_sep(c),
{
    c == '/' || c == '\\'
}

/// The uppercased host name, or the fixed sentinel when the host name could
/// not be determined.
pub open spec fn host_label_of(name: Option<Seq<char>>) -> Seq<char> {
    match name {
        Some(s) => upper_seq(s),
        None => "UNKNOWN"@,
    }
}

/// The canonical host label: the uppercased host name, `"UNKNOWN"` when none
/// could be read from the machine.
pub fn host_label(name: Option<&str>) -> (r: String)
    ensures
        match name {
            Some(s) => r@ == upper_seq(s@),
            None => r@ == "UNKNOWN"@,
        },
{
    match name {
        Some(s) => {
            let n = s.unicode_len();
            let mut out = String::new();
            let mut i: usize = 0;
            while i < n
                invariant
                    0 <= i <= n,
                    n == s@.len(),
                    out@ == upper_seq(s@.take(i as int)),
                decreases n - i,
            {
                proof {
                    assert(s@.take(i + 1) =~= s@.take(i as int).push(s@[i as int]));
                    lemma_upper_seq_push(s@.take(i as int), s@[i as int]);
                }
                push_char(&mut out, upper_char_exec(s.get_char(i)));
                i += 1;
            }
            proof {
                assert(s@.take(n as int) =~= s@);
            }
            out
        },
        None => String::from_str("UNKNOWN"),
    }
}

/// The vertical-axis caption for a metric label: CPU and RAM get their own
/// captions, any label ending in the disk-table suffix gets the disk caption,
/// anything else the generic one.
pub open spec fn y_label_of(m: Seq<char>) -> Seq<char> {
    if upper_seq(m) == "RAM"@ {
        "RAM % Usage"@
    } else if upper_seq(m) == "CPU"@ {
        "CPU % Usage"@
    } else if m.len() >= 6 && upper_seq(m).subrange(m.len() - 6, m.len() as int) == "_DRIVE"@ {
        "HDD % Usage"@
    } else {
        "Value"@
    }
}

/// The vertical-axis caption for a metric label, as `y_label_of` states it.
pub fn y_label(m: &str) -> (r: &'static str)
    ensures
        r@ == y_label_of(m@),
{
    proof {
        crate::strutil::lemma_upper_seq(m@);
        reveal_strlit("_DRIVE");
    }
    if upper_matches(m, "RAM") {
        return "RAM % Usage";
    }
    if upper_matches(m, "CPU") {
        return "CPU % Usage";
    }
    let n = m.unicode_len();
    if n >= 6 {
        let suffix_ok = upper_char_exec(m.get_char(n - 6)) == '_' && upper_char_exec(
            m.get_char(n - 5),
        ) == 'D' && upper_char_exec(m.get_char(n - 4)) == 'R' && upper_char_exec(
            m.get_char(n - 3),
        ) == 'I' && upper_char_exec(m.get_char(n - 2)) == 'V' && upper_char_exec(
            m.get_char(n - 1),
        ) == 'E';
        if suffix_ok {
            proof {
                assert(upper_seq(m@).subrange(m@.len() - 6, m@.len() as int) =~= "_DRIVE"@);
            }
            return "HDD % Usage";
        } else {
            proof {
                assert(upper_seq(m@).subrange(m@.len() - 6, m@.len() as int) != "_DRIVE"@) by {
                    let u = upper_seq(m@).subrange(m@.len() - 6, m@.len() as int);
                    if u == "_DRIVE"@ {
                        assert(u[0] == '_' && u[1] == 'D' && u[2] == 'R' && u[3] == 'I' && u[4]
                            == 'V' && u[5] == 'E');
                    }
                }
            }
            return "Value";
        }
    }
    "Value"
}

} // verus!
