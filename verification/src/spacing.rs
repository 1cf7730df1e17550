//! The spacing law: in the plain rendering, everything after the
//! symbol prefix carries no doubled spaces and no trailing space, so
//! omitting a segment can never leave a double or dangling separator.
//! The law holds provided the caller-supplied texts are themselves
//! cleanly spaced; a description whose first line reads `"a  b"`, or an
//! empty bookmark name, breaks the unconditional wording.

use vstd::prelude::*;

use crate::prompt::{
    bookmarks_seg, description_seg, description_shown, displayed_id, file_count_seg, id_seg,
    render_spec, shown_description, status_seg, symbol_seg, PromptConfig, WorkingCopyFacts,
};
use crate::textops::{
    dec_spec, first_line, is_space_char, join_with_spaces, trim_back, trim_front,
};

verus! {

/// No two adjacent spaces anywhere in `s`.
pub open spec fn no_double_space(s: Seq<char>) -> bool {
    forall|k: int| 0 <= k < s.len() - 1 ==> !((#[trigger] s[k]) == ' ' && s[k + 1] == ' ')
}

/// `s` holds no space at all.
pub open spec fn space_free(s: Seq<char>) -> bool {
    forall|k: int| 0 <= k < s.len() ==> s[k] != ' '
}

/// A piece that can stand between single-space separators: nonempty,
/// no doubled spaces, no space at either edge.
pub open spec fn cleanly_spaced(s: Seq<char>) -> bool {
    s.len() > 0 && no_double_space(s) && s[0] != ' ' && s.last() != ' '
}

/// What the accumulated output keeps while segments are appended.
pub open spec fn spaced_so_far(s: Seq<char>) -> bool {
    no_double_space(s) && (s.len() > 0 ==> s.last() != ' ')
}

/// An optional segment: absent, or a single space and then a cleanly
/// spaced piece.
pub open spec fn spaced_segment(s: Seq<char>) -> bool {
    s.len() == 0 || (s.len() >= 2 && s[0] == ' ' && no_double_space(s) && s[1] != ' ' && s.last()
        != ' ')
}

proof fn lemma_append_segment(a: Seq<char>, s: Seq<char>)
    requires
        spaced_so_far(a),
        spaced_segment(s),
    ensures
        spaced_so_far(a + s),
{
    if s.len() == 0 {
        assert(a + s =~= a);
    } else {
        assert forall|k: int| 0 <= k < (a + s).len() - 1 implies !((#[trigger] (a + s)[k]) == ' '
            && (a + s)[k + 1] == ' ') by {
            if k < a.len() - 1 {
                assert((a + s)[k] == a[k] && (a + s)[k + 1] == a[k + 1]);
            } else if k == a.len() - 1 {
                assert((a + s)[k] == a[a.len() - 1] && (a + s)[k + 1] == s[0]);
            } else {
                assert((a + s)[k] == s[k - a.len()] && (a + s)[k + 1] == s[k + 1 - a.len()]);
            }
        }
        assert((a + s).last() == s.last());
    }
}

proof fn lemma_join_cleanly_spaced(names: Seq<Seq<char>>)
    requires
        names.len() > 0,
        forall|i: int|
            0 <= i < names.len() ==> (#[trigger] names[i]).len() > 0 && space_free(names[i]),
    ensures
        cleanly_spaced(join_with_spaces(names)),
    decreases names.len(),
{
    if names.len() == 1 {
        assert(join_with_spaces(names) == names[0]);
    } else {
        assert(forall|i: int|
            0 <= i < names.drop_last().len() ==> (#[trigger] names.drop_last()[i]).len() > 0
                && space_free(names.drop_last()[i]));
        lemma_join_cleanly_spaced(names.drop_last());
        let j = join_with_spaces(names.drop_last());
        let last = names.last();
        let w = j + seq![' '] + last;
        assert(join_with_spaces(names) == w);
        assert forall|k: int| 0 <= k < w.len() - 1 implies !((#[trigger] w[k]) == ' ' && w[k + 1]
            == ' ') by {
            if k < j.len() - 1 {
                assert(w[k] == j[k] && w[k + 1] == j[k + 1]);
            } else if k == j.len() - 1 {
                assert(w[k] == j.last() && w[k + 1] == ' ');
            } else if k == j.len() {
                assert(w[k] == ' ' && w[k + 1] == last[0]);
            } else {
                assert(w[k] == last[k - j.len() - 1] && w[k + 1] == last[k - j.len()]);
            }
        }
        assert(w[0] == j[0]);
        assert(w.last() == last.last());
    }
}

proof fn lemma_dec_space_free(n: nat)
    ensures
        space_free(dec_spec(n)),
        dec_spec(n).len() > 0,
    decreases n,
{
    if n >= 10 {
        lemma_dec_space_free(n / 10);
    }
}

proof fn lemma_trim_front_edges(s: Seq<char>)
    ensures
        trim_front(s).len() > 0 ==> !is_space_char(trim_front(s)[0]),
        trim_front(s).len() > 0 ==> trim_front(s).last() == s.last(),
    decreases s.len(),
{
    if s.len() > 0 && is_space_char(s[0]) {
        lemma_trim_front_edges(s.drop_first());
    }
}

proof fn lemma_trim_back_last(s: Seq<char>)
    ensures
        trim_back(s).len() > 0 ==> !is_space_char(trim_back(s).last()),
    decreases s.len(),
{
    if s.len() > 0 && is_space_char(s.last()) {
        lemma_trim_back_last(s.drop_last());
    }
}

/// The shown description never starts or ends with whitespace: it is a
/// trimmed line.
proof fn lemma_shown_description_edges(f: WorkingCopyFacts)
    ensures
        shown_description(f).len() > 0 ==> shown_description(f)[0] != ' ',
        shown_description(f).len() > 0 ==> shown_description(f).last() != ' ',
{
    let l = first_line(f.description@);
    lemma_trim_back_last(l);
    lemma_trim_front_edges(trim_back(l));
}

/// Spacing law: with color off, everything after the symbol prefix has
/// no doubled spaces and no trailing space. The hypotheses exclude the
/// caller texts on which the wording cannot hold: a change id with a
/// space, an empty or space-carrying bookmark name, and a description
/// whose own first line doubles its spaces.
pub proof fn lemma_tail_spacing(cfg: PromptConfig, f: WorkingCopyFacts, fc: Option<usize>)
    requires
        !cfg.color_enabled,
        space_free(f.change_id@),
        forall|i: int|
            0 <= i < f.bookmarks@.len() ==> (#[trigger] f.bookmarks@[i])@.len() > 0 && space_free(
                f.bookmarks@[i]@,
            ),
        no_double_space(shown_description(f)),
    ensures
        render_spec(cfg, f, fc) == symbol_seg(cfg) + (id_seg(cfg, f) + bookmarks_seg(cfg, f)
            + status_seg(f) + file_count_seg(cfg, fc) + description_seg(cfg, f)),
        spaced_so_far(
            id_seg(cfg, f) + bookmarks_seg(cfg, f) + status_seg(f) + file_count_seg(cfg, fc)
                + description_seg(cfg, f),
        ),
{
    reveal_strlit(" ");
    reveal_strlit(">");
    reveal_strlit("\\");
    reveal_strlit("~");
    let a1 = id_seg(cfg, f);
    let a2 = a1 + bookmarks_seg(cfg, f);
    let a3 = a2 + status_seg(f);
    let a4 = a3 + file_count_seg(cfg, fc);
    let a5 = a4 + description_seg(cfg, f);
    assert(render_spec(cfg, f, fc) =~= symbol_seg(cfg) + a5);
    // the plain change id holds no space at all
    assert(spaced_so_far(a1)) by {
        assert(forall|k: int| 0 <= k < displayed_id(cfg, f).len() ==> displayed_id(cfg, f)[k]
            != ' ');
    }
    // bookmarks: a single space, then names joined by single spaces
    assert(spaced_segment(bookmarks_seg(cfg, f))) by {
        if f.bookmarks@.len() > 0 {
            let names = f.bookmarks.deep_view();
            assert(forall|i: int|
                0 <= i < names.len() ==> (#[trigger] names[i]).len() > 0 && space_free(names[i]));
            lemma_join_cleanly_spaced(names);
            let s = " "@ + join_with_spaces(names);
            assert(s[0] == ' ' && s[1] != ' ' && s.last() != ' ');
            assert(no_double_space(s));
        }
    }
    lemma_append_segment(a1, bookmarks_seg(cfg, f));
    // status: a single space, then one or two markers
    assert(spaced_segment(status_seg(f)));
    lemma_append_segment(a2, status_seg(f));
    // file count: a single space, a tilde, digits
    assert(spaced_segment(file_count_seg(cfg, fc))) by {
        match fc {
            Option::Some(n) => {
                lemma_dec_space_free(n as nat);
                let s = " "@ + ("~"@ + dec_spec(n as nat));
                assert(s[0] == ' ' && s[1] == '~' && s.last() != ' ');
                assert(no_double_space(s));
            },
            Option::None => {},
        }
    }
    lemma_append_segment(a3, file_count_seg(cfg, fc));
    // description: a single space, then a trimmed line without doubles
    assert(spaced_segment(description_seg(cfg, f))) by {
        if description_shown(f) {
            lemma_shown_description_edges(f);
            let d = shown_description(f);
            let s = " "@ + d;
            assert(s[0] == ' ' && s[1] == d[0] && s.last() == d.last());
            assert(no_double_space(s)) by {
                assert(forall|k: int|
                    1 <= k < s.len() - 1 ==> (#[trigger] s[k]) == d[k - 1] && s[k + 1] == d[k]);
            }
        }
    }
    lemma_append_segment(a4, description_seg(cfg, f));
}

} // verus!
