use bible_reader::record::{read_locator, search_term};
use bible_reader::run::{run_query, run_query_text};
use bible_reader::scanner::Scanner;

fn corpus(lines: &[&str]) -> Vec<String> {
    lines.iter().map(|l| l.to_string()).collect()
}

fn sample() -> Vec<String> {
    corpus(&[
        "# Geneza",
        "= 1",
        "1 La început, Dumnezeu a făcut cerurile și pământul.",
        "",
        "# Ioan",
        "= 3",
        "T Dragostea lui Dumnezeu",
        "16 Fiindcă atât de mult a iubit Dumnezeu lumea...",
        "R Rom 5.8;1Ioan 4.9",
        "17 Dumnezeu, în adevăr, n-a trimis pe Fiul Său...",
    ])
}

#[test]
fn read_single_verse_with_title_banner() {
    let lines = sample();
    let out = run_query_text(read_locator("Ioan", 3, 16), &lines);
    assert_eq!(
        out,
        "\n### Dragostea lui Dumnezeu ###\n[3:16] Fiindcă atât de mult a iubit Dumnezeu lumea... (Rom 5.8, 1Ioan 4.9)\n"
    );
}

#[test]
fn read_emits_banner_then_prefixed_text() {
    let lines = corpus(&[
        "# Ioan",
        "= 3",
        "T Dragostea lui Dumnezeu",
        "16 Fiindcă atât de mult a iubit Dumnezeu lumea...",
    ]);
    let out = run_query_text(read_locator("Ioan", 3, 16), &lines);
    assert_eq!(
        out,
        "\n### Dragostea lui Dumnezeu ###\n[3:16] Fiindcă atât de mult a iubit Dumnezeu lumea...\n"
    );
}

#[test]
fn read_is_case_insensitive_on_book() {
    let lines = sample();
    let a = run_query_text(read_locator("ioan", 3, 16), &lines);
    let b = run_query_text(read_locator("IOAN", 3, 16), &lines);
    assert_eq!(a, b);
    assert!(a.contains("[3:16]"));
}

#[test]
fn read_wildcard_verse_lists_whole_chapter() {
    let lines = sample();
    let out = run_query(read_locator("Ioan", 3, 0), &lines);
    assert_eq!(out.len(), 2);
    assert_eq!(out[0].verse.verse, 16);
    assert_eq!(out[1].verse.verse, 17);
}

#[test]
fn read_wildcard_chapter_and_verse_lists_whole_book() {
    let lines = corpus(&[
        "# Ioan",
        "= 1",
        "1 La început era Cuvântul...",
        "= 3",
        "16 Fiindcă atât de mult a iubit Dumnezeu lumea...",
        "# Luca",
        "= 1",
        "1 Fiindcă mulți s-au apucat...",
    ]);
    let out = run_query(read_locator("ioan", 0, 0), &lines);
    assert_eq!(out.len(), 2);
    assert_eq!(out[0].verse.chapter, 1);
    assert_eq!(out[1].verse.chapter, 3);
    for e in out.iter() {
        assert!(e.verse.book.eq_ignore_ascii_case("Ioan"));
    }
}

#[test]
fn search_matches_regardless_of_case_and_accents() {
    let lines = sample();
    let a = run_query_text(search_term("dumnezeu"), &lines);
    let b = run_query_text(search_term("Dumnezeu"), &lines);
    assert_eq!(a, b);
    assert!(a.contains("[3:16]"));
    assert!(a.contains("[1:1]"));
}

#[test]
fn search_accented_query_finds_plain_and_accented_text() {
    let lines = sample();
    let plain = run_query(search_term("pamantul"), &lines);
    let accented = run_query(search_term("pământul"), &lines);
    assert_eq!(plain.len(), 1);
    assert_eq!(accented.len(), 1);
    assert_eq!(plain[0].verse.verse, accented[0].verse.verse);
}

#[test]
fn search_never_emits_more_than_fifty() {
    let mut raw: Vec<String> = vec!["# Psalmi".to_string(), "= 1".to_string()];
    for i in 1..200u32 {
        raw.push(format!("{} Lauda Domnului, verset {}", i, i));
    }
    let out = run_query(search_term("domnului"), &raw);
    assert_eq!(out.len(), 50);
}

#[test]
fn reference_attaches_only_to_the_verse_just_before() {
    let lines = corpus(&[
        "# Ioan",
        "= 3",
        "16 primul verset",
        "R Rom 5.8",
        "17 al doilea verset",
        "18 al treilea verset",
        "R 1Ioan 4.9",
    ]);
    let out = run_query(read_locator("Ioan", 3, 0), &lines);
    assert_eq!(out.len(), 3);
    assert_eq!(out[0].reference.as_deref(), Some("Rom 5.8"));
    assert_eq!(out[1].reference, None);
    assert_eq!(out[2].reference.as_deref(), Some("1Ioan 4.9"));
}

#[test]
fn reference_without_pending_verse_is_ignored() {
    let lines = corpus(&["# Ioan", "= 3", "R Rom 5.8", "16 versetul"]);
    let out = run_query(read_locator("Ioan", 3, 0), &lines);
    assert_eq!(out.len(), 1);
    assert_eq!(out[0].reference, None);
}

#[test]
fn blank_lines_do_not_break_reference_attachment() {
    let lines = corpus(&["# Ioan", "= 3", "16 versetul", "", "R Rom 5.8"]);
    let out = run_query(read_locator("Ioan", 3, 0), &lines);
    assert_eq!(out.len(), 1);
    assert_eq!(out[0].reference.as_deref(), Some("Rom 5.8"));
}

#[test]
fn title_attaches_to_first_matching_verse_only() {
    let lines = corpus(&["# Ioan", "= 3", "T Un titlu", "16 unu", "17 doi"]);
    let out = run_query(read_locator("Ioan", 3, 0), &lines);
    assert_eq!(out.len(), 2);
    assert_eq!(out[0].verse.title, "Un titlu");
    assert_eq!(out[1].verse.title, "");
}

#[test]
fn chapter_resets_on_new_book_and_title_clears_on_chapter() {
    let lines = corpus(&["# Ioan", "= 3", "T Titlu pierdut", "= 4", "1 verset"]);
    let out = run_query(read_locator("Ioan", 4, 0), &lines);
    assert_eq!(out.len(), 1);
    assert_eq!(out[0].verse.title, "");
    let none = run_query(read_locator("Ioan", 3, 0), &lines);
    assert_eq!(none.len(), 0);
}

#[test]
fn malformed_chapter_or_verse_number_defaults_to_zero() {
    let lines = corpus(&["# Ioan", "= x", "7a verset ciudat"]);
    let out = run_query(read_locator("Ioan", 0, 0), &lines);
    assert_eq!(out.len(), 1);
    assert_eq!(out[0].verse.chapter, 0);
    assert_eq!(out[0].verse.verse, 0);
}

#[test]
fn unrecognized_lines_are_ignored() {
    let lines = corpus(&["# Ioan", "= 3", "% comentariu", "16 versetul", "?!", "R Rom 5.8"]);
    let out = run_query(read_locator("Ioan", 3, 16), &lines);
    // the unrecognized line between verse and reference flushes the verse
    assert_eq!(out.len(), 1);
    assert_eq!(out[0].reference, None);
}

#[test]
fn zero_matches_is_an_empty_result() {
    let lines = sample();
    let out = run_query(read_locator("Marcu", 1, 1), &lines);
    assert_eq!(out.len(), 0);
    assert_eq!(run_query_text(read_locator("Marcu", 1, 1), &lines), "");
}

#[test]
fn streaming_scanner_flushes_on_finish() {
    let mut sc = Scanner::new(read_locator("Ioan", 3, 16));
    assert_eq!(sc.push_line("# Ioan"), None);
    assert_eq!(sc.push_line("= 3").is_some(), false);
    assert_eq!(sc.push_line("16 ultimul verset"), None);
    assert!(!sc.is_done());
    let fin = sc.finish();
    assert!(fin.is_some());
    let e = fin.unwrap();
    assert_eq!(e.verse.text, "ultimul verset");
    assert_eq!(e.reference, None);
}

#[test]
fn streaming_scanner_reports_done_at_cap() {
    let mut sc = Scanner::new(search_term("vers"));
    sc.push_line("# Carte");
    sc.push_line("= 1");
    let mut emitted: usize = 0;
    let mut fed: usize = 0;
    for i in 1..200u32 {
        if sc.is_done() {
            break;
        }
        fed += 1;
        if sc.push_line(&format!("{} vers {}", i, i)).is_some() {
            emitted += 1;
        }
    }
    if sc.finish().is_some() {
        emitted += 1;
    }
    assert_eq!(emitted, 50);
    assert!(fed < 199);
}
