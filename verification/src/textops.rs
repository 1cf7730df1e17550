//! Small verified text helpers shared by the formatter and the probe
//! parser: whitespace classification, trimming, first-line extraction,
//! decimal reading and writing, and joining names with single spaces.

use vstd::prelude::*;

verus! {

/// Whitespace as `char::is_whitespace` has it: the characters with the
/// Unicode `White_Space` property.
pub open spec fn is_space_char(c: char) -> bool {
    c == ' ' || c == '\t' || c == '\n' || c == '\u{b}' || c == '\u{c}' || c == '\r'
        || c == '\u{85}' || c == '\u{a0}' || c == '\u{1680}' || c == '\u{2000}' || c == '\u{2001}'
        || c == '\u{2002}' || c == '\u{2003}' || c == '\u{2004}' || c == '\u{2005}'
        || c == '\u{2006}' || c == '\u{2007}' || c == '\u{2008}' || c == '\u{2009}'
        || c == '\u{200a}' || c == '\u{2028}' || c == '\u{2029}' || c == '\u{202f}'
        || c == '\u{205f}' || c == '\u{3000}'
}

pub fn is_space(c: char) -> (r: bool)
    ensures
        r == is_space_char(c),
{
    c == ' ' || c == '\t' || c == '\n' || c == '\u{b}' || c == '\u{c}' || c == '\r'
        || c == '\u{85}' || c == '\u{a0}' || c == '\u{1680}' || c == '\u{2000}' || c == '\u{2001}'
        || c == '\u{2002}' || c == '\u{2003}' || c == '\u{2004}' || c == '\u{2005}'
        || c == '\u{2006}' || c == '\u{2007}' || c == '\u{2008}' || c == '\u{2009}'
        || c == '\u{200a}' || c == '\u{2028}' || c == '\u{2029}' || c == '\u{202f}'
        || c == '\u{205f}' || c == '\u{3000}'
}

/// The sequence without its leading whitespace.
pub open spec fn trim_front(s: Seq<char>) -> Seq<char>
    decreases s.len(),
{
    if s.len() > 0 && is_space_char(s[0]) {
        trim_front(s.drop_first())
    } else {
        s
    }
}

/// The sequence without its trailing whitespace.
pub open spec fn trim_back(s: Seq<char>) -> Seq<char>
    decreases s.len(),
{
    if s.len() > 0 && is_space_char(s.last()) {
        trim_back(s.drop_last())
    } else {
        s
    }
}

/// The sequence without leading and trailing whitespace, as `str::trim`
/// has it.
pub open spec fn trim_spec(s: Seq<char>) -> Seq<char> {
    trim_front(trim_back(s))
}

/// Everything before the first newline.
pub open spec fn first_line(s: Seq<char>) -> Seq<char>
    decreases s.len(),
{
    if s.len() == 0 {
        s
    } else if s[0] == '\n' {
        Seq::empty()
    } else {
        seq![s[0]] + first_line(s.drop_first())
    }
}

/// The first line of a description with surrounding whitespace removed.
pub open spec fn first_line_trimmed_spec(s: Seq<char>) -> Seq<char> {
    trim_spec(first_line(s))
}

pub proof fn lemma_first_line_prefix(s: Seq<char>, nl: int)
    requires
        0 <= nl <= s.len(),
        forall|k: int| 0 <= k < nl ==> s[k] != '\n',
        nl == s.len() || s[nl] == '\n',
    ensures
        first_line(s) == s.take(nl),
    decreases nl,
{
    if s.len() == 0 {
        assert(s.take(0) =~= s);
    } else if nl == 0 {
        if s[0] == '\n' {
            assert(first_line(s) =~= s.take(0));
        } else {
            assert(s.take(0) =~= s);
        }
    } else {
        lemma_first_line_prefix(s.drop_first(), nl - 1);
        assert(s.drop_first().take(nl - 1) =~= s.take(nl).drop_first());
        assert(seq![s[0]] + s.take(nl).drop_first() =~= s.take(nl));
    }
}

pub proof fn lemma_trim_front_skip(s: Seq<char>, lo: int)
    requires
        0 <= lo <= s.len(),
        forall|k: int| 0 <= k < lo ==> is_space_char(s[k]),
        lo == s.len() || !is_space_char(s[lo]),
    ensures
        trim_front(s) == s.skip(lo),
    decreases lo,
{
    if lo == 0 {
        assert(s.skip(0) =~= s);
    } else {
        lemma_trim_front_skip(s.drop_first(), lo - 1);
        assert(s.drop_first().skip(lo - 1) =~= s.skip(lo));
    }
}

pub proof fn lemma_trim_back_take(s: Seq<char>, hi: int)
    requires
        0 <= hi <= s.len(),
        forall|k: int| hi <= k < s.len() ==> is_space_char(s[k]),
        hi == 0 || !is_space_char(s[hi - 1]),
    ensures
        trim_back(s) == s.take(hi),
    decreases s.len(),
{
    if hi == s.len() {
        assert(s.take(hi) =~= s);
    } else {
        assert(is_space_char(s.last()));
        lemma_trim_back_take(s.drop_last(), hi);
        assert(s.drop_last().take(hi) =~= s.take(hi));
    }
}

/// A decimal digit.
pub open spec fn is_digit_char(c: char) -> bool {
    48 <= c as u32 <= 57
}

/// The numeric value of one decimal digit.
pub open spec fn digit_val(c: char) -> nat {
    (c as u32 - 48) as nat
}

/// Every character is a decimal digit.
pub open spec fn all_digits(s: Seq<char>) -> bool {
    forall|k: int| 0 <= k < s.len() ==> is_digit_char(s[k])
}

/// The value of a sequence of decimal digits, most significant first.
pub open spec fn digits_val(s: Seq<char>) -> nat
    decreases s.len(),
{
    if s.len() == 0 {
        0
    } else {
        digits_val(s.drop_last()) * 10 + digit_val(s.last())
    }
}

pub proof fn lemma_digits_val_prefix(s: Seq<char>, k: int)
    requires
        0 <= k <= s.len(),
    ensures
        digits_val(s.take(k)) <= digits_val(s),
    decreases s.len() - k,
{
    if k < s.len() {
        assert(s.take(k + 1).drop_last() =~= s.take(k));
        assert(digits_val(s.take(k)) <= digits_val(s.take(k + 1)));
        lemma_digits_val_prefix(s, k + 1);
        assert(s.take(s.len() as int) =~= s);
    } else {
        assert(s.take(k) =~= s);
    }
}

/// The value of a decimal token as `usize::from_str` reads it: an
/// optional leading '+', then at least one digit; `None` on anything
/// else or on a value above `usize::MAX`.
pub open spec fn parse_usize_spec(t: Seq<char>) -> Option<nat> {
    let d = if t.len() > 0 && t[0] == '+' {
        t.drop_first()
    } else {
        t
    };
    if d.len() > 0 && all_digits(d) && digits_val(d) <= usize::MAX {
        Some(digits_val(d))
    } else {
        None
    }
}

/// Read a whole string as a decimal `usize`.
pub fn parse_decimal(t: &str) -> (r: Option<usize>)
    ensures
        r is Some <==> parse_usize_spec(t@) is Some,
        r matches Some(v) ==> parse_usize_spec(t@) == Some(v as nat),
{
    let n = t.unicode_len();
    let mut i: usize = 0;
    if n > 0 && t.get_char(0) == '+' {
        i = 1;
    }
    let ghost d: Seq<char> = t@.skip(i as int);
    proof {
        if i == 1 {
            assert(d =~= t@.drop_first());
        } else {
            assert(d =~= t@);
        }
    }
    if i >= n {
        return None;
    }
    let mut acc: usize = 0;
    let mut j: usize = i;
    while j < n
        invariant
            i <= j <= n,
            i <= 1,
            n == t@.len(),
            d == t@.skip(i as int),
            i == 1 <==> t@.len() > 0 && t@[0] == '+',
            d == (if t@.len() > 0 && t@[0] == '+' {
                t@.drop_first()
            } else {
                t@
            }),
            all_digits(d.take(j - i)),
            acc as nat == digits_val(d.take(j - i)),
        decreases n - j,
    {
        let c = t.get_char(j);
        let u = c as u32;
        if !(48 <= u && u <= 57) {
            proof {
                assert(d[j - i] == t@[j as int]);
                assert(!is_digit_char(d[j - i]));
                assert(!all_digits(d));
            }
            return None;
        }
        let dv: usize = (u - 48) as usize;
        let m = acc.checked_mul(10);
        let acc2 = match m {
            Some(x) => x.checked_add(dv),
            None => None,
        };
        proof {
            assert(d.take(j - i + 1).drop_last() =~= d.take(j - i));
            assert(d.take(j - i + 1).last() == t@[j as int]);
            assert(digits_val(d.take(j - i + 1)) == acc as nat * 10 + dv as nat);
        }
        match acc2 {
            Some(y) => {
                acc = y;
            },
            None => {
                proof {
                    assert(digits_val(d.take(j - i + 1)) > usize::MAX);
                    lemma_digits_val_prefix(d, j - i + 1);
                    assert(digits_val(d) > usize::MAX);
                }
                return None;
            },
        }
        j = j + 1;
    }
    proof {
        assert(d.take(n - i) =~= d);
    }
    Some(acc)
}

/// One decimal digit as a character.
pub open spec fn dec_digit(d: nat) -> char {
    if d == 0 {
        '0'
    } else if d == 1 {
        '1'
    } else if d == 2 {
        '2'
    } else if d == 3 {
        '3'
    } else if d == 4 {
        '4'
    } else if d == 5 {
        '5'
    } else if d == 6 {
        '6'
    } else if d == 7 {
        '7'
    } else if d == 8 {
        '8'
    } else {
        '9'
    }
}

/// The decimal digits of `n`, most significant first.
pub open spec fn dec_spec(n: nat) -> Seq<char>
    decreases n,
{
    if n < 10 {
        seq![dec_digit(n)]
    } else {
        dec_spec(n / 10) + seq![dec_digit(n % 10)]
    }
}

fn dec_digit_str(d: usize) -> (r: &'static str)
    requires
        d < 10,
    ensures
        r@ == seq![dec_digit(d as nat)],
{
    let r: &'static str = match d {
        0 => "0",
        1 => "1",
        2 => "2",
        3 => "3",
        4 => "4",
        5 => "5",
        6 => "6",
        7 => "7",
        8 => "8",
        _ => "9",
    };
    proof {
        reveal_strlit("0");
        reveal_strlit("1");
        reveal_strlit("2");
        reveal_strlit("3");
        reveal_strlit("4");
        reveal_strlit("5");
        reveal_strlit("6");
        reveal_strlit("7");
        reveal_strlit("8");
        reveal_strlit("9");
        assert(r@ =~= seq![dec_digit(d as nat)]);
    }
    r
}

/// Append the decimal rendering of `n`.
pub fn push_decimal(out: &mut String, n: usize)
    ensures
        final(out)@ == old(out)@ + dec_spec(n as nat),
    decreases n,
{
    if n < 10 {
        out.append(dec_digit_str(n));
    } else {
        push_decimal(out, n / 10);
        out.append(dec_digit_str(n % 10));
        proof {
            assert(old(out)@ + dec_spec((n / 10) as nat) + seq![dec_digit((n % 10) as nat)] =~= old(
                out,
            )@ + dec_spec(n as nat));
        }
    }
}

/// Names joined with one space between each pair.
pub open spec fn join_with_spaces(names: Seq<Seq<char>>) -> Seq<char>
    decreases names.len(),
{
    if names.len() == 0 {
        Seq::empty()
    } else if names.len() == 1 {
        names[0]
    } else {
        join_with_spaces(names.drop_last()) + seq![' '] + names.last()
    }
}

/// The first line of `s`, trimmed of surrounding whitespace.
pub fn first_line_trimmed(s: &str) -> (r: String)
    ensures
        r@ == first_line_trimmed_spec(s@),
{
    let n = s.unicode_len();
    let mut nl: usize = 0;
    while nl < n && s.get_char(nl) != '\n'
        invariant
            nl <= n,
            n == s@.len(),
            forall|k: int| 0 <= k < nl ==> s@[k] != '\n',
        decreases n - nl,
    {
        nl = nl + 1;
    }
    proof {
        lemma_first_line_prefix(s@, nl as int);
    }
    let ghost line: Seq<char> = s@.take(nl as int);
    let mut lo: usize = 0;
    while lo < nl && is_space(s.get_char(lo))
        invariant
            lo <= nl <= n,
            n == s@.len(),
            forall|k: int| 0 <= k < lo ==> is_space_char(s@[k]),
        decreases nl - lo,
    {
        lo = lo + 1;
    }
    let mut hi: usize = nl;
    while hi > lo && is_space(s.get_char(hi - 1))
        invariant
            lo <= hi <= nl <= n,
            n == s@.len(),
            forall|k: int| hi <= k < nl ==> is_space_char(s@[k]),
        decreases hi,
    {
        hi = hi - 1;
    }
    let r = s.substring_char(lo, hi);
    proof {
        if lo < hi {
            // line[hi - 1] is not whitespace, line[lo] is not whitespace
            assert(forall|k: int| hi <= k < nl ==> is_space_char(line[k]));
            lemma_trim_back_take(line, hi as int);
            assert(forall|k: int| 0 <= k < lo ==> is_space_char(line.take(hi as int)[k]));
            lemma_trim_front_skip(line.take(hi as int), lo as int);
            assert(line.take(hi as int).skip(lo as int) =~= s@.subrange(lo as int, hi as int));
        } else {
            // everything in the line is whitespace: hi == lo
            assert(forall|k: int| 0 <= k < nl ==> is_space_char(line[k])) by {
                assert(forall|k: int| 0 <= k < lo ==> is_space_char(line[k]));
                assert(forall|k: int| hi <= k < nl ==> is_space_char(line[k]));
            }
            lemma_trim_back_take(line, 0);
            assert(trim_spec(line) =~= s@.subrange(lo as int, hi as int));
        }
    }
    String::from_str(r)
}

} // verus!
