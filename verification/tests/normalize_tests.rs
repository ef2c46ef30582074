use bible_reader::numbers::parse_i32;
use bible_reader::record::search_term;
use bible_reader::run::run_query;
use bible_reader::text::{contains_sub, eq_ignore_case, normalize, trim_end};

#[test]
fn normalize_accented_uppercase_matches_plain_lowercase() {
    assert_eq!(normalize("ÎNĂLȚARE"), normalize("inaltare"));
    assert_eq!(normalize("ÎNĂLȚARE"), "inaltare");
}

#[test]
fn normalize_is_idempotent_on_samples() {
    let samples = ["Fiindcă atât de mult a iubit Dumnezeu lumea", "ȘŢșţÂâ", "plain ASCII 123"];
    for s in samples.iter() {
        let once = normalize(s);
        let twice = normalize(&once);
        assert_eq!(once, twice);
    }
}

#[test]
fn normalize_folds_both_diacritic_encodings() {
    // cedilla and comma-below variants collapse to the same base letter
    assert_eq!(normalize("şș"), "ss");
    assert_eq!(normalize("ţț"), "tt");
    assert_eq!(normalize("ĂÂăâ"), "aaaa");
    assert_eq!(normalize("Îî"), "ii");
}

#[test]
fn normalize_leaves_non_letters_alone() {
    assert_eq!(normalize("abc-123 [x]"), "abc-123 [x]");
    assert_eq!(normalize("MiXeD"), "mixed");
}

#[test]
fn normalize_lowercases_every_letter_not_only_ascii() {
    assert_eq!(normalize("Été"), "été");
    assert_eq!(normalize("ÜBER"), "über");
    assert_eq!(normalize("ËÖÇ"), "ëöç");
}

#[test]
fn search_is_case_insensitive_beyond_ascii() {
    let lines: Vec<String> =
        vec!["# Carte".to_string(), "= 1".to_string(), "1 Vara trecută: Été".to_string()];
    let upper = run_query(search_term("ÉTÉ"), &lines);
    let lower = run_query(search_term("été"), &lines);
    assert_eq!(upper.len(), 1);
    assert_eq!(lower.len(), 1);
}

#[test]
fn parse_lenient_decimal() {
    assert_eq!(parse_i32("12"), 12);
    assert_eq!(parse_i32("0"), 0);
    assert_eq!(parse_i32("-5"), -5);
    assert_eq!(parse_i32("+7"), 7);
    assert_eq!(parse_i32(""), 0);
    assert_eq!(parse_i32("abc"), 0);
    assert_eq!(parse_i32("12a"), 0);
    assert_eq!(parse_i32("2147483647"), 2147483647);
    assert_eq!(parse_i32("2147483648"), 0);
    assert_eq!(parse_i32("-2147483648"), -2147483648);
    assert_eq!(parse_i32("-2147483649"), 0);
    assert_eq!(parse_i32("999999999999999999999"), 0);
}

#[test]
fn case_insensitive_equality() {
    assert!(eq_ignore_case("Ioan", "IOAN"));
    assert!(eq_ignore_case("ioan", "Ioan"));
    assert!(!eq_ignore_case("Ioan", "Luca"));
    assert!(!eq_ignore_case("Ioan", "Ioana"));
}

#[test]
fn substring_containment() {
    assert!(contains_sub("dumnezeu lumea", "lume"));
    assert!(contains_sub("anything", ""));
    assert!(!contains_sub("short", "not in there"));
    assert!(!contains_sub("abcd", "acd"));
}

#[test]
fn trim_strips_line_endings() {
    assert_eq!(trim_end("abc\n"), "abc");
    assert_eq!(trim_end("abc\r\n"), "abc");
    assert_eq!(trim_end("abc  \t"), "abc");
    assert_eq!(trim_end("   "), "");
    assert_eq!(trim_end("abc"), "abc");
}
