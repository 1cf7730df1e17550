//! The no-color law: rendering with color disabled yields exactly the
//! colored rendering with every ANSI escape sequence removed, for any
//! facts whose text fields hold no escape character of their own.

use vstd::prelude::*;

use crate::ansi::{
    accent_code, bold_code, dim_code, esc_free, green_code, lemma_palette_shapes,
    lemma_strip_clean, lemma_strip_seq, reset_code, reset_color_code, secondary_code, strip_ansi,
};
use crate::prompt::{
    bookmarks_seg, description_seg, description_shown, displayed_id, file_count_seg, id_seg,
    render_spec, shown_description, split_point, status_seg, symbol_seg, PromptConfig,
    WorkingCopyFacts,
};
use crate::textops::{dec_spec, first_line, join_with_spaces, trim_back, trim_front};

verus! {

proof fn lemma_dec_esc_free(n: nat)
    ensures
        esc_free(dec_spec(n)),
    decreases n,
{
    if n >= 10 {
        lemma_dec_esc_free(n / 10);
    }
}

proof fn lemma_join_esc_free(names: Seq<Seq<char>>)
    requires
        forall|i: int| 0 <= i < names.len() ==> esc_free(names[i]),
    ensures
        esc_free(join_with_spaces(names)),
    decreases names.len(),
{
    if names.len() > 1 {
        assert(forall|i: int|
            0 <= i < names.drop_last().len() ==> esc_free(#[trigger] names.drop_last()[i]));
        lemma_join_esc_free(names.drop_last());
        assert(esc_free(names.last()));
    }
}

proof fn lemma_first_line_esc_free(s: Seq<char>)
    requires
        esc_free(s),
    ensures
        esc_free(first_line(s)),
    decreases s.len(),
{
    if s.len() > 0 && s[0] != '\n' {
        assert(esc_free(s.drop_first()));
        lemma_first_line_esc_free(s.drop_first());
    }
}

proof fn lemma_trim_esc_free(s: Seq<char>)
    requires
        esc_free(s),
    ensures
        esc_free(trim_back(s)),
        esc_free(trim_front(s)),
    decreases s.len(),
{
    if s.len() > 0 {
        assert(esc_free(s.drop_first()));
        assert(esc_free(s.drop_last()));
        lemma_trim_esc_free(s.drop_first());
        lemma_trim_esc_free(s.drop_last());
    }
}

proof fn lemma_strip_symbol(sym: Seq<char>, rest: Seq<char>)
    requires
        esc_free(sym),
    ensures
        strip_ansi((green_code() + sym + reset_code()) + rest) == sym + strip_ansi(rest),
{
    lemma_palette_shapes();
    assert((green_code() + sym + reset_code()) + rest =~= green_code() + (sym + (reset_code()
        + rest)));
    lemma_strip_seq(green_code(), sym + (reset_code() + rest));
    lemma_strip_clean(sym, reset_code() + rest);
    lemma_strip_seq(reset_code(), rest);
}

proof fn lemma_strip_id(id: Seq<char>, sp: int, rest: Seq<char>)
    requires
        esc_free(id),
        0 <= sp <= id.len(),
    ensures
        strip_ansi((bold_code() + accent_code() + id.take(sp) + reset_code() + secondary_code()
            + id.skip(sp) + reset_color_code()) + rest) == id + strip_ansi(rest),
{
    lemma_palette_shapes();
    let pre = id.take(sp);
    let suf = id.skip(sp);
    assert(esc_free(pre));
    assert(esc_free(suf));
    assert((bold_code() + accent_code() + pre + reset_code() + secondary_code() + suf
        + reset_color_code()) + rest =~= bold_code() + (accent_code() + (pre + (reset_code() + (
    secondary_code() + (suf + (reset_color_code() + rest)))))));
    lemma_strip_seq(bold_code(), accent_code() + (pre + (reset_code() + (secondary_code() + (suf + (
    reset_color_code() + rest))))));
    lemma_strip_seq(accent_code(), pre + (reset_code() + (secondary_code() + (suf + (
    reset_color_code() + rest)))));
    lemma_strip_clean(pre, reset_code() + (secondary_code() + (suf + (reset_color_code() + rest))));
    lemma_strip_seq(reset_code(), secondary_code() + (suf + (reset_color_code() + rest)));
    lemma_strip_seq(secondary_code(), suf + (reset_color_code() + rest));
    lemma_strip_clean(suf, reset_color_code() + rest);
    lemma_strip_seq(reset_color_code(), rest);
    assert(pre + (suf + strip_ansi(rest)) =~= id + strip_ansi(rest));
}

proof fn lemma_strip_bookmarks(
    cfg: PromptConfig,
    plain: PromptConfig,
    f: WorkingCopyFacts,
    rest: Seq<char>,
)
    requires
        cfg.color_enabled,
        !plain.color_enabled,
        forall|i: int| 0 <= i < f.bookmarks@.len() ==> esc_free(f.bookmarks@[i]@),
    ensures
        strip_ansi(bookmarks_seg(cfg, f) + rest) == bookmarks_seg(plain, f) + strip_ansi(rest),
{
    lemma_palette_shapes();
    if f.bookmarks@.len() == 0 {
        assert(bookmarks_seg(cfg, f) + rest =~= rest);
        assert(bookmarks_seg(plain, f) + strip_ansi(rest) =~= strip_ansi(rest));
    } else {
        let names = f.bookmarks.deep_view();
        assert(forall|i: int| 0 <= i < names.len() ==> esc_free(#[trigger] names[i]));
        lemma_join_esc_free(names);
        let joined = join_with_spaces(names);
        assert((" "@ + accent_code() + joined + reset_code()) + rest =~= " "@ + (accent_code() + (
        joined + (reset_code() + rest))));
        lemma_strip_clean(" "@, accent_code() + (joined + (reset_code() + rest)));
        lemma_strip_seq(accent_code(), joined + (reset_code() + rest));
        lemma_strip_clean(joined, reset_code() + rest);
        lemma_strip_seq(reset_code(), rest);
        assert(bookmarks_seg(cfg, f) + rest =~= " "@ + (accent_code() + (joined + (reset_code()
            + rest))));
        assert(" "@ + (joined + strip_ansi(rest)) =~= bookmarks_seg(plain, f) + strip_ansi(rest));
    }
}

proof fn lemma_strip_status(f: WorkingCopyFacts, rest: Seq<char>)
    ensures
        strip_ansi(status_seg(f) + rest) == status_seg(f) + strip_ansi(rest),
{
    lemma_palette_shapes();
    assert(esc_free(status_seg(f)));
    lemma_strip_clean(status_seg(f), rest);
}

proof fn lemma_strip_file_count(
    cfg: PromptConfig,
    plain: PromptConfig,
    fc: Option<usize>,
    rest: Seq<char>,
)
    requires
        cfg.color_enabled,
        !plain.color_enabled,
    ensures
        strip_ansi(file_count_seg(cfg, fc) + rest) == file_count_seg(plain, fc) + strip_ansi(rest),
{
    lemma_palette_shapes();
    match fc {
        Option::Some(n) => {
            lemma_dec_esc_free(n as nat);
            assert((" "@ + dim_code() + "~"@ + dec_spec(n as nat) + reset_code()) + rest =~= " "@
                + (dim_code() + (("~"@ + dec_spec(n as nat)) + (reset_code() + rest))));
            lemma_strip_clean(" "@, dim_code() + (("~"@ + dec_spec(n as nat)) + (reset_code()
                + rest)));
            lemma_strip_seq(dim_code(), ("~"@ + dec_spec(n as nat)) + (reset_code() + rest));
            assert(esc_free("~"@ + dec_spec(n as nat)));
            lemma_strip_clean("~"@ + dec_spec(n as nat), reset_code() + rest);
            lemma_strip_seq(reset_code(), rest);
            assert(" "@ + (("~"@ + dec_spec(n as nat)) + strip_ansi(rest)) =~= file_count_seg(
                plain,
                fc,
            ) + strip_ansi(rest));
        },
        Option::None => {
            assert(file_count_seg(cfg, fc) + rest =~= rest);
            assert(file_count_seg(plain, fc) + strip_ansi(rest) =~= strip_ansi(rest));
        },
    }
}

proof fn lemma_strip_description(
    cfg: PromptConfig,
    plain: PromptConfig,
    f: WorkingCopyFacts,
    rest: Seq<char>,
)
    requires
        cfg.color_enabled,
        !plain.color_enabled,
        esc_free(f.description@),
    ensures
        strip_ansi(description_seg(cfg, f) + rest) == description_seg(plain, f) + strip_ansi(rest),
{
    lemma_palette_shapes();
    if description_shown(f) {
        let d = shown_description(f);
        lemma_first_line_esc_free(f.description@);
        lemma_trim_esc_free(first_line(f.description@));
        lemma_trim_esc_free(trim_back(first_line(f.description@)));
        assert(esc_free(d));
        assert((" "@ + dim_code() + d + reset_code()) + rest =~= " "@ + (dim_code() + (d + (
        reset_code() + rest))));
        lemma_strip_clean(" "@, dim_code() + (d + (reset_code() + rest)));
        lemma_strip_seq(dim_code(), d + (reset_code() + rest));
        lemma_strip_clean(d, reset_code() + rest);
        lemma_strip_seq(reset_code(), rest);
        assert(" "@ + (d + strip_ansi(rest)) =~= description_seg(plain, f) + strip_ansi(rest));
    } else {
        assert(description_seg(cfg, f) + rest =~= rest);
        assert(description_seg(plain, f) + strip_ansi(rest) =~= strip_ansi(rest));
    }
}

/// The no-color law: with the same options but color disabled, the
/// rendered prompt is exactly the colored rendering with every ANSI
/// escape sequence removed. It asks that the caller-supplied texts
/// carry no escape character of their own.
#[verifier::rlimit(50)]
pub proof fn lemma_no_color_strips_ansi(
    cfg: PromptConfig,
    plain: PromptConfig,
    f: WorkingCopyFacts,
    fc: Option<usize>,
)
    requires
        cfg.color_enabled,
        !plain.color_enabled,
        plain.symbol == cfg.symbol,
        plain.id_length == cfg.id_length,
        plain.file_count_enabled == cfg.file_count_enabled,
        esc_free(cfg.symbol@),
        esc_free(f.change_id@),
        forall|i: int| 0 <= i < f.bookmarks@.len() ==> esc_free(f.bookmarks@[i]@),
        esc_free(f.description@),
    ensures
        strip_ansi(render_spec(cfg, f, fc)) == render_spec(plain, f, fc),
{
    let id = displayed_id(cfg, f);
    let sp = split_point(cfg, f);
    assert(esc_free(id));
    let sym = cfg.symbol@;
    let r6: Seq<char> = Seq::empty();
    let r5 = description_seg(cfg, f) + r6;
    let r4 = file_count_seg(cfg, fc) + r5;
    let r3 = status_seg(f) + r4;
    let r2 = bookmarks_seg(cfg, f) + r3;
    let r1 = id_seg(cfg, f) + r2;
    assert(render_spec(cfg, f, fc) =~= symbol_seg(cfg) + r1);
    lemma_strip_symbol(sym, r1);
    assert(symbol_seg(cfg) + r1 == (green_code() + sym + reset_code()) + r1);
    assert(strip_ansi(render_spec(cfg, f, fc)) == sym + strip_ansi(r1));
    lemma_strip_id(id, sp, r2);
    assert(id_seg(cfg, f) + r2 == (bold_code() + accent_code() + id.take(sp) + reset_code()
        + secondary_code() + id.skip(sp) + reset_color_code()) + r2);
    assert(strip_ansi(r1) == id + strip_ansi(r2));
    lemma_strip_bookmarks(cfg, plain, f, r3);
    assert(strip_ansi(r2) == bookmarks_seg(plain, f) + strip_ansi(r3));
    lemma_strip_status(f, r4);
    assert(strip_ansi(r3) == status_seg(f) + strip_ansi(r4));
    lemma_strip_file_count(cfg, plain, fc, r5);
    assert(strip_ansi(r4) == file_count_seg(plain, fc) + strip_ansi(r5));
    lemma_strip_description(cfg, plain, f, r6);
    assert(strip_ansi(r6) =~= Seq::<char>::empty());
    assert(strip_ansi(r5) == description_seg(plain, f) + strip_ansi(r6));
    assert(strip_ansi(render_spec(cfg, f, fc)) == sym + (id + (bookmarks_seg(plain, f) + (
    status_seg(f) + (file_count_seg(plain, fc) + (description_seg(plain, f)
        + Seq::<char>::empty()))))));
    assert(symbol_seg(plain) == sym);
    assert(id_seg(plain, f) == displayed_id(plain, f));
    assert(displayed_id(plain, f) == id);
    assert(strip_ansi(render_spec(cfg, f, fc)) =~= render_spec(plain, f, fc));
}

} // verus!
