use jj_prompt::prompt::{render_prompt, PromptConfig, WorkingCopyFacts};

fn config(color: bool) -> PromptConfig {
    PromptConfig {
        symbol: String::from("  "),
        id_length: 4,
        color_enabled: color,
        file_count_enabled: true,
    }
}

fn facts() -> WorkingCopyFacts {
    WorkingCopyFacts {
        change_id: String::from("zzqmxtsmwvuq"),
        prefix_len: 2,
        bookmarks: Vec::new(),
        description: String::from("(no description set)"),
        has_conflict: false,
        is_divergent: false,
    }
}

/// Removes every `ESC ... m` run, as a terminal-unaware reader would.
fn strip_ansi_text(s: &str) -> String {
    let mut out = String::new();
    let mut in_seq = false;
    for c in s.chars() {
        if in_seq {
            if c == 'm' {
                in_seq = false;
            }
        } else if c == '\u{1b}' {
            in_seq = true;
        } else {
            out.push(c);
        }
    }
    out
}

#[test]
fn colored_minimal_prompt() {
    let out = render_prompt(&config(true), &facts(), None);
    assert_eq!(
        out,
        "\u{1b}[32m  \u{1b}[0m\u{1b}[1m\u{1b}[38;5;5mzz\u{1b}[0m\u{1b}[38;5;8mqm\u{1b}[39m"
    );
}

#[test]
fn plain_minimal_prompt() {
    let out = render_prompt(&config(false), &facts(), None);
    assert_eq!(out, "  zzqm");
}

#[test]
fn id_shorter_than_requested_length() {
    let mut f = facts();
    f.change_id = String::from("zz");
    f.prefix_len = 7;
    let out = render_prompt(&config(false), &f, None);
    assert_eq!(out, "  zz");
}

#[test]
fn status_between_bookmarks_and_file_count() {
    let mut f = facts();
    f.bookmarks = vec![String::from("main"), String::from("feature-x")];
    f.has_conflict = true;
    f.is_divergent = false;
    f.description = String::new();
    let out = render_prompt(&config(false), &f, Some(3));
    assert_eq!(out, "  zzqm main feature-x > ~3");
}

#[test]
fn both_status_flags() {
    let mut f = facts();
    f.has_conflict = true;
    f.is_divergent = true;
    let out = render_prompt(&config(false), &f, None);
    assert_eq!(out, "  zzqm >\\");
}

#[test]
fn divergent_only_status() {
    let mut f = facts();
    f.is_divergent = true;
    let out = render_prompt(&config(false), &f, None);
    assert_eq!(out, "  zzqm \\");
}

#[test]
fn failed_probe_omits_only_file_count() {
    let mut f = facts();
    f.bookmarks = vec![String::from("main")];
    f.has_conflict = true;
    f.description = String::from("tidy up");
    let with_count = render_prompt(&config(false), &f, Some(2));
    let without = render_prompt(&config(false), &f, None);
    assert_eq!(with_count, "  zzqm main > ~2 tidy up");
    assert_eq!(without, "  zzqm main > tidy up");
}

#[test]
fn description_first_line_trimmed() {
    let mut f = facts();
    f.description = String::from("  fix the parser  \nmore detail below");
    let out = render_prompt(&config(false), &f, None);
    assert_eq!(out, "  zzqm fix the parser");
}

#[test]
fn placeholder_description_is_suppressed() {
    let mut f = facts();
    f.description = String::from("(no description set)\nbody");
    let out = render_prompt(&config(false), &f, None);
    assert_eq!(out, "  zzqm");
}

#[test]
fn whitespace_description_is_suppressed() {
    let mut f = facts();
    f.description = String::from("   \nbody");
    let out = render_prompt(&config(false), &f, None);
    assert_eq!(out, "  zzqm");
}

#[test]
fn omitting_bookmarks_removes_one_space_and_segment() {
    let mut with_bm = facts();
    with_bm.description = String::from("done");
    with_bm.bookmarks = vec![String::from("main")];
    let mut without_bm = with_bm.clone();
    without_bm.bookmarks = Vec::new();
    let a = render_prompt(&config(false), &with_bm, Some(1));
    let b = render_prompt(&config(false), &without_bm, Some(1));
    assert_eq!(a, "  zzqm main ~1 done");
    assert_eq!(b, "  zzqm ~1 done");
    assert!(!b.contains("  ~"));
    assert!(!b.ends_with(' '));
}

#[test]
fn omitting_status_removes_one_space_and_segment() {
    let mut f = facts();
    f.description = String::from("done");
    f.has_conflict = true;
    let mut g = f.clone();
    g.has_conflict = false;
    let a = render_prompt(&config(false), &f, None);
    let b = render_prompt(&config(false), &g, None);
    assert_eq!(a, "  zzqm > done");
    assert_eq!(b, "  zzqm done");
}

#[test]
fn rendering_is_deterministic() {
    let f = {
        let mut f = facts();
        f.bookmarks = vec![String::from("main")];
        f.has_conflict = true;
        f.description = String::from("work");
        f
    };
    let a = render_prompt(&config(true), &f, Some(7));
    let b = render_prompt(&config(true), &f, Some(7));
    assert_eq!(a, b);
}

#[test]
fn no_color_equals_stripped_colored_output() {
    let mut f = facts();
    f.bookmarks = vec![String::from("main"), String::from("dev")];
    f.has_conflict = true;
    f.is_divergent = true;
    f.description = String::from("  polish output \nrest");
    let colored = render_prompt(&config(true), &f, Some(12));
    let plain = render_prompt(&config(false), &f, Some(12));
    assert_eq!(plain, strip_ansi_text(&colored));
}

#[test]
fn colored_full_prompt_bytes() {
    let mut f = facts();
    f.bookmarks = vec![String::from("main")];
    f.has_conflict = true;
    f.description = String::from("tidy");
    let out = render_prompt(&config(true), &f, Some(5));
    let expected = String::new()
        + "\u{1b}[32m  \u{1b}[0m"
        + "\u{1b}[1m\u{1b}[38;5;5mzz\u{1b}[0m\u{1b}[38;5;8mqm\u{1b}[39m"
        + " \u{1b}[38;5;5mmain\u{1b}[0m"
        + " >"
        + " \u{1b}[2m~5\u{1b}[0m"
        + " \u{1b}[2mtidy\u{1b}[0m";
    assert_eq!(out, expected);
}

#[test]
fn tail_has_no_double_or_trailing_spaces() {
    let mut f = facts();
    f.bookmarks = vec![String::from("main"), String::from("dev")];
    f.has_conflict = true;
    f.is_divergent = true;
    f.description = String::from("fix bug");
    let out = render_prompt(&config(false), &f, Some(4));
    let tail = &out[2..];
    assert_eq!(tail, "zzqm main dev >\\ ~4 fix bug");
    assert!(!tail.contains("  "));
    assert!(!tail.ends_with(' '));
}

#[test]
fn custom_symbol_and_zero_id_length() {
    let cfg = PromptConfig {
        symbol: String::from("jj:"),
        id_length: 0,
        color_enabled: false,
        file_count_enabled: true,
    };
    let out = render_prompt(&cfg, &facts(), None);
    assert_eq!(out, "jj:");
}

#[test]
fn prefix_longer_than_displayed_id_colors_all_of_it() {
    let mut f = facts();
    f.prefix_len = 9;
    let out = render_prompt(&config(true), &f, None);
    assert_eq!(
        out,
        "\u{1b}[32m  \u{1b}[0m\u{1b}[1m\u{1b}[38;5;5mzzqm\u{1b}[0m\u{1b}[38;5;8m\u{1b}[39m"
    );
}
