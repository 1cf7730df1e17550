//! The fixed ANSI escape sequences of the prompt's palette, and a
//! specification of what removing every escape sequence from a string
//! means, with the lemmas the no-color law is proved from.

use vstd::prelude::*;

verus! {

/// The escape character that starts every ANSI sequence.
pub open spec fn esc_char() -> char {
    '\u{1b}'
}

/// Green, for the symbol prefix.
pub open spec fn green_code() -> Seq<char> {
    "\u{1b}[32m"@
}

/// Full reset.
pub open spec fn reset_code() -> Seq<char> {
    "\u{1b}[0m"@
}

/// Reset of the foreground color only.
pub open spec fn reset_color_code() -> Seq<char> {
    "\u{1b}[39m"@
}

/// Bold, for the unique prefix of the change id.
pub open spec fn bold_code() -> Seq<char> {
    "\u{1b}[1m"@
}

/// The accent color of the change id and of bookmarks.
pub open spec fn accent_code() -> Seq<char> {
    "\u{1b}[38;5;5m"@
}

/// The secondary color of the rest of the change id.
pub open spec fn secondary_code() -> Seq<char> {
    "\u{1b}[38;5;8m"@
}

/// Dim, for the file count and the description.
pub open spec fn dim_code() -> Seq<char> {
    "\u{1b}[2m"@
}

/// `s` holds no escape character.
pub open spec fn esc_free(s: Seq<char>) -> bool {
    forall|k: int| 0 <= k < s.len() ==> s[k] != esc_char()
}

/// One complete ANSI sequence: it starts with the escape character and
/// ends at its first 'm'.
pub open spec fn is_ansi_seq(s: Seq<char>) -> bool {
    &&& s.len() >= 2
    &&& s[0] == esc_char()
    &&& s.last() == 'm'
    &&& forall|k: int| 1 <= k < s.len() - 1 ==> s[k] != 'm'
}

/// `s` with everything from each escape character through the next 'm'
/// removed; `in_seq` says whether a sequence is already open.
pub open spec fn strip_ansi_from(s: Seq<char>, in_seq: bool) -> Seq<char>
    decreases s.len(),
{
    if s.len() == 0 {
        Seq::empty()
    } else if in_seq {
        strip_ansi_from(s.drop_first(), s[0] != 'm')
    } else if s[0] == esc_char() {
        strip_ansi_from(s.drop_first(), true)
    } else {
        seq![s[0]] + strip_ansi_from(s.drop_first(), false)
    }
}

/// `s` with every ANSI escape sequence removed.
pub open spec fn strip_ansi(s: Seq<char>) -> Seq<char> {
    strip_ansi_from(s, false)
}

/// Text free of escape characters passes through the stripper.
pub proof fn lemma_strip_clean(a: Seq<char>, b: Seq<char>)
    requires
        esc_free(a),
    ensures
        strip_ansi(a + b) == a + strip_ansi(b),
    decreases a.len(),
{
    if a.len() == 0 {
        assert(a + b =~= b);
        assert(a + strip_ansi(b) =~= strip_ansi(b));
    } else {
        assert((a + b)[0] == a[0]);
        assert((a + b).drop_first() =~= a.drop_first() + b);
        lemma_strip_clean(a.drop_first(), b);
        assert(seq![a[0]] + (a.drop_first() + strip_ansi(b)) =~= a + strip_ansi(b));
    }
}

proof fn lemma_strip_in_seq(c: Seq<char>, b: Seq<char>)
    requires
        c.len() >= 1,
        c.last() == 'm',
        forall|k: int| 0 <= k < c.len() - 1 ==> c[k] != 'm',
    ensures
        strip_ansi_from(c + b, true) == strip_ansi(b),
    decreases c.len(),
{
    if c.len() == 1 {
        assert((c + b)[0] == 'm');
        assert((c + b).drop_first() =~= b);
    } else {
        assert((c + b)[0] == c[0]);
        assert(c[0] != 'm');
        assert((c + b).drop_first() =~= c.drop_first() + b);
        lemma_strip_in_seq(c.drop_first(), b);
    }
}

/// A complete ANSI sequence disappears under the stripper.
pub proof fn lemma_strip_seq(c: Seq<char>, b: Seq<char>)
    requires
        is_ansi_seq(c),
    ensures
        strip_ansi(c + b) == strip_ansi(b),
{
    assert((c + b)[0] == esc_char());
    assert((c + b).drop_first() =~= c.drop_first() + b);
    lemma_strip_in_seq(c.drop_first(), b);
}

/// The palette's sequences really are complete ANSI sequences, and the
/// plain characters of the grammar are escape-free.
pub proof fn lemma_palette_shapes()
    ensures
        is_ansi_seq(green_code()),
        is_ansi_seq(reset_code()),
        is_ansi_seq(reset_color_code()),
        is_ansi_seq(bold_code()),
        is_ansi_seq(accent_code()),
        is_ansi_seq(secondary_code()),
        is_ansi_seq(dim_code()),
        esc_free(" "@),
        esc_free(">"@),
        esc_free("\\"@),
        esc_free("~"@),
{
    reveal_strlit("\u{1b}[32m");
    reveal_strlit("\u{1b}[0m");
    reveal_strlit("\u{1b}[39m");
    reveal_strlit("\u{1b}[1m");
    reveal_strlit("\u{1b}[38;5;5m");
    reveal_strlit("\u{1b}[38;5;8m");
    reveal_strlit("\u{1b}[2m");
    reveal_strlit(" ");
    reveal_strlit(">");
    reveal_strlit("\\");
    reveal_strlit("~");
}

} // verus!
