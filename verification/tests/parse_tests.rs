use std::path::PathBuf;

use jj_prompt::file_count::parse_file_count;
use jj_prompt::locate::find_jj_root;
use jj_prompt::reverse_hex::encode_reverse_hex;
use jj_prompt::textops::{first_line_trimmed, parse_decimal};

#[test]
fn probe_output_many_files() {
    let out = "9 files changed, 449 insertions(+), 187 deletions(-)\n";
    assert_eq!(parse_file_count(out), Some(9));
}

#[test]
fn probe_output_single_file() {
    let out = "1 file changed, 10 insertions(+)\n";
    assert_eq!(parse_file_count(out), Some(1));
}

#[test]
fn probe_output_takes_last_nonempty_line() {
    let out = "src/lib.rs | 4 +-\nsrc/main.rs | 2 +-\n5 files changed, 6 insertions(+)\n";
    assert_eq!(parse_file_count(out), Some(5));
}

#[test]
fn probe_output_zero_count_means_none() {
    assert_eq!(parse_file_count("0 files changed\n"), None);
}

#[test]
fn probe_output_empty_means_none() {
    assert_eq!(parse_file_count(""), None);
    assert_eq!(parse_file_count("\n\n"), None);
}

#[test]
fn probe_output_non_numeric_means_none() {
    assert_eq!(parse_file_count("nothing changed\n"), None);
}

#[test]
fn probe_output_trailing_blank_lines() {
    assert_eq!(parse_file_count("7 files changed\n\n"), Some(7));
}

#[test]
fn probe_output_leading_whitespace() {
    assert_eq!(parse_file_count("   12 files changed\n"), Some(12));
}

#[test]
fn probe_output_crlf_lines() {
    assert_eq!(parse_file_count("3 files changed\r\n"), Some(3));
}

#[test]
fn probe_output_overflowing_count_means_none() {
    assert_eq!(parse_file_count("99999999999999999999999999 files changed\n"), None);
}

#[test]
fn probe_output_whitespace_last_line_means_none() {
    assert_eq!(parse_file_count("5 files changed\n   \n"), None);
}

#[test]
fn decimal_with_plus_sign_parses() {
    assert_eq!(parse_decimal("+41"), Some(41));
    assert_eq!(parse_decimal("41"), Some(41));
}

#[test]
fn decimal_rejects_junk() {
    assert_eq!(parse_decimal(""), None);
    assert_eq!(parse_decimal("+"), None);
    assert_eq!(parse_decimal("4a"), None);
    assert_eq!(parse_decimal("-4"), None);
}

#[test]
fn reverse_hex_of_empty_is_empty() {
    assert_eq!(encode_reverse_hex(&[]), "");
}

#[test]
fn reverse_hex_alphabet_order() {
    assert_eq!(
        encode_reverse_hex(&[0x01, 0x23, 0x45, 0x67, 0x89, 0xab, 0xcd, 0xef]),
        "zyxwvutsrqponmlk"
    );
}

#[test]
fn reverse_hex_extremes() {
    assert_eq!(encode_reverse_hex(&[0x00, 0xff]), "zzkk");
}

#[test]
fn first_line_trimming() {
    assert_eq!(first_line_trimmed("  hello world \nsecond"), "hello world");
    assert_eq!(first_line_trimmed(""), "");
    assert_eq!(first_line_trimmed("\nbody"), "");
    assert_eq!(first_line_trimmed("x\r\ny"), "x");
    assert_eq!(first_line_trimmed("   \t  "), "");
}

#[test]
fn detect_outside_any_repository() {
    let start = PathBuf::from("/no/such/directory/for/this/library");
    assert_eq!(find_jj_root(start), None);
}
