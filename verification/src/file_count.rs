//! Parsing the output of the external diff-summary command: the first
//! whitespace-separated token of the last non-empty line, read as a
//! positive decimal count. Anything else means "no count".

use vstd::prelude::*;

use crate::textops::{
    all_digits, digits_val, is_space, is_space_char, lemma_trim_front_skip, parse_decimal,
    parse_usize_spec, trim_front,
};

verus! {

/// The characters after the last newline.
pub open spec fn suffix_after_newline(s: Seq<char>) -> Seq<char>
    decreases s.len(),
{
    if s.len() == 0 {
        Seq::empty()
    } else if s.last() == '\n' {
        Seq::empty()
    } else {
        suffix_after_newline(s.drop_last()) + seq![s.last()]
    }
}

/// The last line with any content. Lines end at '\n'; an immediately
/// preceding '\r' belongs to the terminator.
pub open spec fn last_nonempty_line(s: Seq<char>) -> Seq<char>
    decreases s.len(),
{
    if s.len() == 0 {
        Seq::empty()
    } else if s.last() == '\n' {
        if s.len() >= 2 && s[s.len() - 2] == '\r' {
            last_nonempty_line(s.take(s.len() - 2))
        } else {
            last_nonempty_line(s.drop_last())
        }
    } else {
        suffix_after_newline(s)
    }
}

/// The leading maximal run of non-whitespace characters.
pub open spec fn leading_nonspace(s: Seq<char>) -> Seq<char>
    decreases s.len(),
{
    if s.len() > 0 && !is_space_char(s[0]) {
        seq![s[0]] + leading_nonspace(s.drop_first())
    } else {
        Seq::empty()
    }
}

/// The first whitespace-separated token, empty if there is none.
pub open spec fn first_token(s: Seq<char>) -> Seq<char> {
    leading_nonspace(trim_front(s))
}

/// What the probe parse yields on the raw standard output of the
/// diff-summary command: the first token of the last non-empty line as
/// a decimal number, and only when it is positive.
pub open spec fn file_count_spec(s: Seq<char>) -> Option<usize> {
    match parse_usize_spec(first_token(last_nonempty_line(s))) {
        Some(v) => if v > 0 {
            Some(v as usize)
        } else {
            None
        },
        None => None,
    }
}

proof fn lemma_leading_nonspace_range(s: Seq<char>, j: int)
    requires
        0 <= j <= s.len(),
        forall|k: int| 0 <= k < j ==> !is_space_char(s[k]),
        j == s.len() || is_space_char(s[j]),
    ensures
        leading_nonspace(s) == s.take(j),
    decreases j,
{
    if j == 0 {
        assert(s.take(0) =~= Seq::<char>::empty());
    } else {
        lemma_leading_nonspace_range(s.drop_first(), j - 1);
        assert(s.drop_first().take(j - 1) =~= s.take(j).drop_first());
        assert(seq![s[0]] + s.take(j).drop_first() =~= s.take(j));
    }
}

/// Parse the probe's standard output; `None` on any shape but a
/// positive leading count on the last non-empty line.
pub fn parse_file_count(stdout: &str) -> (r: Option<usize>)
    ensures
        r == file_count_spec(stdout@),
        r matches Some(v) ==> v > 0,
{
    let n = stdout.unicode_len();
    let mut end: usize = n;
    proof {
        assert(stdout@.take(n as int) =~= stdout@);
    }
    while end > 0 && stdout.get_char(end - 1) == '\n'
        invariant
            end <= n,
            n == stdout@.len(),
            last_nonempty_line(stdout@) == last_nonempty_line(stdout@.take(end as int)),
        decreases end,
    {
        proof {
            let t = stdout@.take(end as int);
            assert(t.last() == '\n');
            if end >= 2 && stdout@[end - 2] == '\r' {
                assert(t.take(end - 2) =~= stdout@.take(end - 2));
            } else {
                assert(t.drop_last() =~= stdout@.take(end - 1));
            }
        }
        if end >= 2 && stdout.get_char(end - 2) == '\r' {
            end = end - 2;
        } else {
            end = end - 1;
        }
    }
    if end == 0 {
        proof {
            assert(stdout@.take(0) =~= Seq::<char>::empty());
            assert(last_nonempty_line(stdout@) =~= Seq::<char>::empty());
            assert(trim_front(Seq::<char>::empty()) =~= Seq::<char>::empty());
        }
        return None;
    }
    // the last non-empty line is the suffix of stdout@.take(end) after
    // its last newline
    let ghost cut: Seq<char> = stdout@.take(end as int);
    proof {
        assert(cut.last() != '\n');
    }
    let mut start: usize = end;
    while start > 0 && stdout.get_char(start - 1) != '\n'
        invariant
            start <= end <= n,
            n == stdout@.len(),
            cut == stdout@.take(end as int),
            cut.len() == end,
            suffix_after_newline(cut) == suffix_after_newline(stdout@.take(start as int))
                + stdout@.subrange(start as int, end as int),
        decreases start,
    {
        proof {
            let pre = stdout@.take(start as int);
            assert(pre.last() == stdout@[start - 1]);
            assert(pre.drop_last() =~= stdout@.take(start - 1));
            assert(suffix_after_newline(stdout@.take(start - 1)) + (seq![stdout@[start - 1]]
                + stdout@.subrange(start as int, end as int)) =~= suffix_after_newline(
                stdout@.take(start - 1),
            ) + seq![stdout@[start - 1]] + stdout@.subrange(start as int, end as int));
            assert(seq![stdout@[start - 1]] + stdout@.subrange(start as int, end as int)
                =~= stdout@.subrange(start - 1, end as int));
        }
        start = start - 1;
    }
    proof {
        if start == 0 {
            assert(stdout@.take(0) =~= Seq::<char>::empty());
            assert(suffix_after_newline(Seq::<char>::empty()) + stdout@.subrange(0, end as int)
                =~= stdout@.subrange(0, end as int));
        } else {
            let pre = stdout@.take(start as int);
            assert(pre.last() == '\n');
            assert(suffix_after_newline(pre) + stdout@.subrange(start as int, end as int)
                =~= stdout@.subrange(start as int, end as int));
        }
        assert(last_nonempty_line(stdout@) == stdout@.subrange(start as int, end as int));
    }
    let ghost line: Seq<char> = stdout@.subrange(start as int, end as int);
    // skip leading whitespace of the line
    let mut lo: usize = start;
    while lo < end && is_space(stdout.get_char(lo))
        invariant
            start <= lo <= end <= n,
            n == stdout@.len(),
            forall|k: int| start <= k < lo ==> is_space_char(stdout@[k]),
        decreases end - lo,
    {
        lo = lo + 1;
    }
    proof {
        lemma_trim_front_skip(line, lo - start);
        assert(line.skip(lo - start) =~= stdout@.subrange(lo as int, end as int));
    }
    // the first token is the non-whitespace run from lo
    let mut hi: usize = lo;
    while hi < end && !is_space(stdout.get_char(hi))
        invariant
            lo <= hi <= end <= n,
            n == stdout@.len(),
            forall|k: int| lo <= k < hi ==> !is_space_char(stdout@[k]),
        decreases end - hi,
    {
        hi = hi + 1;
    }
    proof {
        lemma_leading_nonspace_range(stdout@.subrange(lo as int, end as int), hi - lo);
        assert(stdout@.subrange(lo as int, end as int).take(hi - lo) =~= stdout@.subrange(
            lo as int,
            hi as int,
        ));
        assert(first_token(last_nonempty_line(stdout@)) == stdout@.subrange(
            lo as int,
            hi as int,
        ));
    }
    let token = stdout.substring_char(lo, hi);
    let parsed = parse_decimal(token);
    match parsed {
        Some(v) => if v > 0 {
            Some(v)
        } else {
            None
        },
        None => None,
    }
}

} // verus!
