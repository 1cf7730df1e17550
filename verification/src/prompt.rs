//! The prompt formatter: a pure function from the rendering options,
//! the working-copy facts and an optional changed-file count to the
//! single-line prompt string.
//!
//! Grammar, each segment dropped together with its leading space when
//! its fact is absent:
//!
//! ```text
//! [symbol][change_id][ bookmarks][ status][ ~file_count][ description]
//! ```

use vstd::prelude::*;

use crate::ansi::{
    accent_code, bold_code, dim_code, green_code, reset_code, reset_color_code, secondary_code,
};
use crate::textops::{dec_spec, first_line_trimmed, first_line_trimmed_spec, join_with_spaces,
    push_decimal};

verus! {

/// The immutable rendering options.
#[derive(Clone, Debug)]
pub struct PromptConfig {
    /// The prefix string put before the change id.
    pub symbol: String,
    /// How many characters of the change id to display.
    pub id_length: usize,
    /// Whether ANSI color codes are emitted.
    pub color_enabled: bool,
    /// Whether the changed-file count is looked up at all.
    pub file_count_enabled: bool,
}

/// The read-only facts about the working-copy commit, gathered once
/// per invocation.
#[derive(Clone, Debug)]
pub struct WorkingCopyFacts {
    /// The full change id in the reversed hex encoding.
    pub change_id: String,
    /// Length of the prefix of the change id that identifies it
    /// uniquely; used only to place the color split.
    pub prefix_len: usize,
    /// Names of the local bookmarks on the working-copy commit, in the
    /// order the repository view yields them.
    pub bookmarks: Vec<String>,
    /// The raw commit description.
    pub description: String,
    /// The commit has an unresolved conflict.
    pub has_conflict: bool,
    /// The change id resolves to more than one commit.
    pub is_divergent: bool,
}

/// The displayed part of the change id: truncated to the configured
/// length, never past its natural length.
pub open spec fn displayed_id(cfg: PromptConfig, f: WorkingCopyFacts) -> Seq<char> {
    if cfg.id_length <= f.change_id@.len() {
        f.change_id@.take(cfg.id_length as int)
    } else {
        f.change_id@
    }
}

/// Where the accent color of the unique prefix ends: the unique prefix
/// length, clamped to the displayed id.
pub open spec fn split_point(cfg: PromptConfig, f: WorkingCopyFacts) -> int {
    if f.prefix_len <= displayed_id(cfg, f).len() {
        f.prefix_len as int
    } else {
        displayed_id(cfg, f).len() as int
    }
}

/// The symbol segment: the configured prefix, green when color is on.
pub open spec fn symbol_seg(cfg: PromptConfig) -> Seq<char> {
    if cfg.color_enabled {
        green_code() + cfg.symbol@ + reset_code()
    } else {
        cfg.symbol@
    }
}

/// The change-id segment: when color is on, the unique prefix in bold
/// accent and the rest in the secondary color.
pub open spec fn id_seg(cfg: PromptConfig, f: WorkingCopyFacts) -> Seq<char> {
    let id = displayed_id(cfg, f);
    let sp = split_point(cfg, f);
    if cfg.color_enabled {
        bold_code() + accent_code() + id.take(sp) + reset_code() + secondary_code() + id.skip(sp)
            + reset_color_code()
    } else {
        id
    }
}

/// The bookmark segment: all names joined with single spaces, in the
/// accent color when color is on; absent when there are none.
pub open spec fn bookmarks_seg(cfg: PromptConfig, f: WorkingCopyFacts) -> Seq<char> {
    if f.bookmarks@.len() == 0 {
        Seq::empty()
    } else if cfg.color_enabled {
        " "@ + accent_code() + join_with_spaces(f.bookmarks.deep_view()) + reset_code()
    } else {
        " "@ + join_with_spaces(f.bookmarks.deep_view())
    }
}

/// The status flags: conflict marker first, divergence marker second.
pub open spec fn status_flags(f: WorkingCopyFacts) -> Seq<char> {
    (if f.has_conflict {
        ">"@
    } else {
        Seq::empty()
    }) + (if f.is_divergent {
        "\\"@
    } else {
        Seq::empty()
    })
}

/// The status segment, present when at least one flag is set.
pub open spec fn status_seg(f: WorkingCopyFacts) -> Seq<char> {
    if f.has_conflict || f.is_divergent {
        " "@ + status_flags(f)
    } else {
        Seq::empty()
    }
}

/// The file-count segment: `~` and the count, dimmed when color is on.
pub open spec fn file_count_seg(cfg: PromptConfig, fc: Option<usize>) -> Seq<char> {
    match fc {
        Option::Some(n) => if cfg.color_enabled {
            " "@ + dim_code() + "~"@ + dec_spec(n as nat) + reset_code()
        } else {
            " "@ + "~"@ + dec_spec(n as nat)
        },
        Option::None => Seq::empty(),
    }
}

/// What of the description is shown: its first line, trimmed.
pub open spec fn shown_description(f: WorkingCopyFacts) -> Seq<char> {
    first_line_trimmed_spec(f.description@)
}

/// The description segment is present only when the shown text is
/// neither empty nor the backend's placeholder for "no description".
pub open spec fn description_shown(f: WorkingCopyFacts) -> bool {
    shown_description(f).len() > 0 && shown_description(f) != "(no description set)"@
}

/// The description segment, dimmed when color is on.
pub open spec fn description_seg(cfg: PromptConfig, f: WorkingCopyFacts) -> Seq<char> {
    if description_shown(f) {
        if cfg.color_enabled {
            " "@ + dim_code() + shown_description(f) + reset_code()
        } else {
            " "@ + shown_description(f)
        }
    } else {
        Seq::empty()
    }
}

/// The whole prompt line.
pub open spec fn render_spec(cfg: PromptConfig, f: WorkingCopyFacts, fc: Option<usize>) -> Seq<
    char,
> {
    symbol_seg(cfg) + id_seg(cfg, f) + bookmarks_seg(cfg, f) + status_seg(f) + file_count_seg(
        cfg,
        fc,
    ) + description_seg(cfg, f)
}

fn push_symbol(out: &mut String, cfg: &PromptConfig)
    ensures
        final(out)@ == old(out)@ + symbol_seg(*cfg),
{
    if cfg.color_enabled {
        out.append("\u{1b}[32m");
        out.append(cfg.symbol.as_str());
        out.append("\u{1b}[0m");
        proof {
            assert(out@ =~= old(out)@ + symbol_seg(*cfg));
        }
    } else {
        out.append(cfg.symbol.as_str());
    }
}

fn push_change_id(out: &mut String, cfg: &PromptConfig, f: &WorkingCopyFacts)
    ensures
        final(out)@ == old(out)@ + id_seg(*cfg, *f),
{
    let len = f.change_id.as_str().unicode_len();
    let k = if cfg.id_length <= len {
        cfg.id_length
    } else {
        len
    };
    proof {
        assert(f.change_id@.take(len as int) =~= f.change_id@);
    }
    if cfg.color_enabled {
        let sp = if f.prefix_len <= k {
            f.prefix_len
        } else {
            k
        };
        let pre = f.change_id.as_str().substring_char(0, sp);
        let rest = f.change_id.as_str().substring_char(sp, k);
        out.append("\u{1b}[1m");
        out.append("\u{1b}[38;5;5m");
        out.append(pre);
        out.append("\u{1b}[0m");
        out.append("\u{1b}[38;5;8m");
        out.append(rest);
        out.append("\u{1b}[39m");
        proof {
            assert(pre@ =~= displayed_id(*cfg, *f).take(split_point(*cfg, *f)));
            assert(rest@ =~= displayed_id(*cfg, *f).skip(split_point(*cfg, *f)));
            assert(out@ =~= old(out)@ + id_seg(*cfg, *f));
        }
    } else {
        let id = f.change_id.as_str().substring_char(0, k);
        out.append(id);
        proof {
            assert(id@ =~= displayed_id(*cfg, *f));
        }
    }
}

fn push_bookmarks(out: &mut String, cfg: &PromptConfig, f: &WorkingCopyFacts)
    ensures
        final(out)@ == old(out)@ + bookmarks_seg(*cfg, *f),
{
    let m = f.bookmarks.len();
    if m == 0 {
        proof {
            assert(old(out)@ + bookmarks_seg(*cfg, *f) =~= old(out)@);
        }
        return ;
    }
    out.append(" ");
    if cfg.color_enabled {
        out.append("\u{1b}[38;5;5m");
    }
    let ghost base: Seq<char> = out@;
    let mut i: usize = 0;
    while i < m
        invariant
            1 <= m,
            m == f.bookmarks@.len(),
            i <= m,
            out@ == base + (if i == 0 {
                Seq::<char>::empty()
            } else {
                join_with_spaces(f.bookmarks.deep_view().take(i as int))
            }),
        decreases m - i,
    {
        if i > 0 {
            out.append(" ");
        }
        out.append(f.bookmarks[i].as_str());
        proof {
            reveal_strlit(" ");
            let names = f.bookmarks.deep_view();
            assert(names.take(i + 1).drop_last() =~= names.take(i as int));
            assert(names.take(i + 1).last() == f.bookmarks@[i as int]@);
            assert(" "@ =~= seq![' ']);
            if i == 0 {
                assert(out@ =~= base + join_with_spaces(names.take(1)));
            } else {
                assert(out@ =~= base + join_with_spaces(names.take(i + 1)));
            }
        }
        i = i + 1;
    }
    proof {
        assert(f.bookmarks.deep_view().take(m as int) =~= f.bookmarks.deep_view());
    }
    if cfg.color_enabled {
        out.append("\u{1b}[0m");
    }
    proof {
        assert(out@ =~= old(out)@ + bookmarks_seg(*cfg, *f));
    }
}

fn push_status(out: &mut String, f: &WorkingCopyFacts)
    ensures
        final(out)@ == old(out)@ + status_seg(*f),
{
    if f.has_conflict || f.is_divergent {
        out.append(" ");
        if f.has_conflict {
            out.append(">");
        }
        if f.is_divergent {
            out.append("\\");
        }
        proof {
            assert(out@ =~= old(out)@ + status_seg(*f));
        }
    } else {
        proof {
            assert(old(out)@ + status_seg(*f) =~= old(out)@);
        }
    }
}

fn push_file_count(out: &mut String, cfg: &PromptConfig, fc: Option<usize>)
    ensures
        final(out)@ == old(out)@ + file_count_seg(*cfg, fc),
{
    match fc {
        Option::Some(n) => {
            out.append(" ");
            if cfg.color_enabled {
                out.append("\u{1b}[2m");
            }
            out.append("~");
            push_decimal(out, n);
            if cfg.color_enabled {
                out.append("\u{1b}[0m");
            }
            proof {
                assert(out@ =~= old(out)@ + file_count_seg(*cfg, fc));
            }
        },
        Option::None => {
            proof {
                assert(old(out)@ + file_count_seg(*cfg, fc) =~= old(out)@);
            }
        },
    }
}

fn push_description(out: &mut String, cfg: &PromptConfig, f: &WorkingCopyFacts)
    ensures
        final(out)@ == old(out)@ + description_seg(*cfg, *f),
{
    let d = first_line_trimmed(f.description.as_str());
    let placeholder = String::from_str("(no description set)");
    if !d.as_str().is_empty() && !(d == placeholder) {
        out.append(" ");
        if cfg.color_enabled {
            out.append("\u{1b}[2m");
        }
        out.append(d.as_str());
        if cfg.color_enabled {
            out.append("\u{1b}[0m");
        }
        proof {
            assert(out@ =~= old(out)@ + description_seg(*cfg, *f));
        }
    } else {
        proof {
            assert(old(out)@ + description_seg(*cfg, *f) =~= old(out)@);
        }
    }
}

/// Render the prompt line for the given options, facts and optional
/// changed-file count. A pure function of its arguments: the result is
/// exactly `render_spec`.
pub fn render_prompt(cfg: &PromptConfig, facts: &WorkingCopyFacts, file_count: Option<usize>) -> (r:
    String)
    ensures
        r@ == render_spec(*cfg, *facts, file_count),
{
    let mut out = String::new();
    push_symbol(&mut out, cfg);
    push_change_id(&mut out, cfg, facts);
    push_bookmarks(&mut out, cfg, facts);
    push_status(&mut out, facts);
    push_file_count(&mut out, cfg, file_count);
    push_description(&mut out, cfg, facts);
    proof {
        assert(out@ =~= render_spec(*cfg, *facts, file_count));
    }
    out
}

/// The rendered change id never exceeds the configured length nor the
/// full identifier's length.
pub proof fn lemma_displayed_id_len(cfg: PromptConfig, f: WorkingCopyFacts)
    ensures
        displayed_id(cfg, f).len() <= cfg.id_length,
        displayed_id(cfg, f).len() <= f.change_id@.len(),
{
}

/// The color split point never passes the end of the rendered change
/// id, so splitting there cannot go out of range.
pub proof fn lemma_split_point_in_range(cfg: PromptConfig, f: WorkingCopyFacts)
    ensures
        0 <= split_point(cfg, f) <= displayed_id(cfg, f).len(),
{
}

/// Rendering is a pure function: identical facts, options and count
/// give the identical line.
pub proof fn lemma_render_deterministic(
    cfg1: PromptConfig,
    f1: WorkingCopyFacts,
    fc1: Option<usize>,
    cfg2: PromptConfig,
    f2: WorkingCopyFacts,
    fc2: Option<usize>,
)
    requires
        cfg1 == cfg2,
        f1 == f2,
        fc1 == fc2,
    ensures
        render_spec(cfg1, f1, fc1) == render_spec(cfg2, f2, fc2),
{
}

/// Omission law for bookmarks: emptying the bookmark list removes
/// exactly the bookmark segment and its separating space.
pub proof fn lemma_omit_bookmarks(
    cfg: PromptConfig,
    f: WorkingCopyFacts,
    g: WorkingCopyFacts,
    fc: Option<usize>,
)
    requires
        g.change_id == f.change_id,
        g.prefix_len == f.prefix_len,
        g.description == f.description,
        g.has_conflict == f.has_conflict,
        g.is_divergent == f.is_divergent,
        g.bookmarks@.len() == 0,
    ensures
        render_spec(cfg, f, fc) == symbol_seg(cfg) + id_seg(cfg, f) + bookmarks_seg(cfg, f) + (
        status_seg(f) + file_count_seg(cfg, fc) + description_seg(cfg, f)),
        render_spec(cfg, g, fc) == symbol_seg(cfg) + id_seg(cfg, f) + (status_seg(f)
            + file_count_seg(cfg, fc) + description_seg(cfg, f)),
{
    assert(render_spec(cfg, f, fc) =~= symbol_seg(cfg) + id_seg(cfg, f) + bookmarks_seg(cfg, f) + (
    status_seg(f) + file_count_seg(cfg, fc) + description_seg(cfg, f)));
    assert(render_spec(cfg, g, fc) =~= symbol_seg(cfg) + id_seg(cfg, f) + (status_seg(f)
        + file_count_seg(cfg, fc) + description_seg(cfg, f)));
}

/// Omission law for the status flags: clearing both flags removes
/// exactly the status segment and its separating space.
pub proof fn lemma_omit_status(
    cfg: PromptConfig,
    f: WorkingCopyFacts,
    g: WorkingCopyFacts,
    fc: Option<usize>,
)
    requires
        g.change_id == f.change_id,
        g.prefix_len == f.prefix_len,
        g.bookmarks == f.bookmarks,
        g.description == f.description,
        !g.has_conflict,
        !g.is_divergent,
    ensures
        render_spec(cfg, f, fc) == symbol_seg(cfg) + id_seg(cfg, f) + bookmarks_seg(cfg, f)
            + status_seg(f) + (file_count_seg(cfg, fc) + description_seg(cfg, f)),
        render_spec(cfg, g, fc) == symbol_seg(cfg) + id_seg(cfg, f) + bookmarks_seg(cfg, f) + (
        file_count_seg(cfg, fc) + description_seg(cfg, f)),
{
    assert(render_spec(cfg, f, fc) =~= symbol_seg(cfg) + id_seg(cfg, f) + bookmarks_seg(cfg, f)
        + status_seg(f) + (file_count_seg(cfg, fc) + description_seg(cfg, f)));
    assert(render_spec(cfg, g, fc) =~= symbol_seg(cfg) + id_seg(cfg, f) + bookmarks_seg(cfg, f) + (
    file_count_seg(cfg, fc) + description_seg(cfg, f)));
}

/// Omission law for the file count: an absent count removes exactly
/// the file-count segment and its separating space.
pub proof fn lemma_omit_file_count(cfg: PromptConfig, f: WorkingCopyFacts, fc: Option<usize>)
    ensures
        render_spec(cfg, f, fc) == symbol_seg(cfg) + id_seg(cfg, f) + bookmarks_seg(cfg, f)
            + status_seg(f) + file_count_seg(cfg, fc) + description_seg(cfg, f),
        render_spec(cfg, f, None) == symbol_seg(cfg) + id_seg(cfg, f) + bookmarks_seg(cfg, f)
            + status_seg(f) + description_seg(cfg, f),
{
    assert(render_spec(cfg, f, None) =~= symbol_seg(cfg) + id_seg(cfg, f) + bookmarks_seg(cfg, f)
        + status_seg(f) + description_seg(cfg, f));
}

/// Omission law for the description: a description that is empty after
/// trimming (or the backend placeholder) removes exactly the
/// description segment and its separating space.
pub proof fn lemma_omit_description(
    cfg: PromptConfig,
    f: WorkingCopyFacts,
    g: WorkingCopyFacts,
    fc: Option<usize>,
)
    requires
        g.change_id == f.change_id,
        g.prefix_len == f.prefix_len,
        g.bookmarks == f.bookmarks,
        g.has_conflict == f.has_conflict,
        g.is_divergent == f.is_divergent,
        !description_shown(g),
    ensures
        render_spec(cfg, f, fc) == symbol_seg(cfg) + id_seg(cfg, f) + bookmarks_seg(cfg, f)
            + status_seg(f) + file_count_seg(cfg, fc) + description_seg(cfg, f),
        render_spec(cfg, g, fc) == symbol_seg(cfg) + id_seg(cfg, f) + bookmarks_seg(cfg, f)
            + status_seg(f) + file_count_seg(cfg, fc),
{
    assert(render_spec(cfg, g, fc) =~= symbol_seg(cfg) + id_seg(cfg, f) + bookmarks_seg(cfg, f)
        + status_seg(f) + file_count_seg(cfg, fc));
}

} // verus!
