use vstd::prelude::*;

verus! {

/// The ASCII uppercase image of a character: letters `a`..`z` map to
/// `A`..`Z`, every other character is unchanged.
pub open spec fn upper_char(c: char) -> char {
    if 'a' <= c && c <= 'z' {
        ((c as u32) - 32) as char
    } else {
        c
    }
}

/// A character sequence uppercased, ASCII letter by ASCII letter.
pub open spec fn upper_seq(s: Seq<char>) -> Seq<char>
    decreases s.len(),
{
    if s.len() == 0 {
        Seq::empty()
    } else {
        upper_seq(s.drop_last()).push(upper_char(s.last()))
    }
}

pub proof fn lemma_upper_seq(s: Seq<char>)
    ensures
        upper_seq(s).len() == s.len(),
        forall|i: int| 0 <= i < s.len() ==> upper_seq(s)[i] == upper_char(s[i]),
    decreases s.len(),
{
    if s.len() > 0 {
        lemma_upper_seq(s.drop_last());
    }
}

pub proof fn lemma_upper_seq_push(s: Seq<char>, c: char)
    ensures
        upper_seq(s.push(c)) == upper_seq(s).push(upper_char(c)),
{
    assert(s.push(c).drop_last() =~= s);
    assert(upper_seq(s.push(c)) == upper_seq(s.push(c).drop_last()).push(upper_char(
        s.push(c).last(),
    )));
}

/// Relies on String::push: appends the character to the end of the string.
#[verifier::external_body]
pub fn push_char(s: &mut String, c: char)
    ensures
        final(s)@ == old(s)@.push(c),
{
    s.push(c)
}

/// The ASCII uppercase image of a character, executably.
pub fn upper_char_exec(c: char) -> (r: char)
    ensures
        r == upper_char(c),
{
    let u = c as u32;
    if 97 <= u && u <= 122 {
        ((u - 32) as u8) as char
    } else {
        c
    }
}

/// Whether the uppercased form of `s` is exactly the sequence `t`.
pub fn upper_matches(s: &str, t: &str) -> (r: bool)
    ensures
        r == (upper_seq(s@) == t@),
{
    proof {
        lemma_upper_seq(s@);
    }
    let n = s.unicode_len();
    if n != t.unicode_len() {
        proof {
            assert(upper_seq(s@).len() != t@.len());
        }
        return false;
    }
    let mut i: usize = 0;
    while i < n
        invariant
            n == s@.len() == t@.len(),
            0 <= i <= n,
            upper_seq(s@).len() == n,
            forall|k: int| 0 <= k < s@.len() ==> upper_seq(s@)[k] == upper_char(s@[k]),
            forall|k: int| 0 <= k < i ==> upper_seq(s@)[k] == t@[k],
        decreases n - i,
    {
        let c = upper_char_exec(s.get_char(i));
        if c != t.get_char(i) {
            proof {
                assert(upper_seq(s@)[i as int] != t@[i as int]);
            }
            return false;
        }
        i += 1;
    }
    proof {
        assert(upper_seq(s@) =~= t@);
    }
    true
}

} // verus!
