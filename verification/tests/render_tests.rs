use bible_reader::emit::{render_emission, replace_semicolons};
use bible_reader::highlight::render;
use bible_reader::record::{Emission, VerseRecord};

const RED: &str = "\x1b[31m";
const RESET: &str = "\x1b[0m";

#[test]
fn render_highlights_single_quote_span() {
    let out = render("<span class='Isus'>Domnul</span> este bun");
    assert_eq!(out, format!("{}Domnul{} este bun", RED, RESET));
    assert!(!out.contains("<span"));
}

#[test]
fn render_highlights_escaped_quote_span() {
    let out = render("<span class=\\'Isus\\'>Eu sunt</span> calea");
    assert_eq!(out, format!("{}Eu sunt{} calea", RED, RESET));
}

#[test]
fn render_highlights_double_quote_span() {
    let out = render("<span class=\"Isus\">Adevărat</span> vă spun");
    assert_eq!(out, format!("{}Adevărat{} vă spun", RED, RESET));
}

#[test]
fn render_passes_plain_text_through() {
    assert_eq!(render("fără marcaje"), "fără marcaje");
    assert_eq!(render(""), "");
}

#[test]
fn render_tolerates_unmatched_markers() {
    // a stray closing marker still becomes a reset, nothing is dropped
    assert_eq!(render("a</span>b"), format!("a{}b", RESET));
    assert_eq!(render("<span class='Isus'>x"), format!("{}x", RED));
}

#[test]
fn reference_separators_become_comma_space() {
    assert_eq!(replace_semicolons("Rom 5.8;1Ioan 4.9"), "Rom 5.8, 1Ioan 4.9");
    assert_eq!(replace_semicolons("Rom 5.8"), "Rom 5.8");
    assert_eq!(replace_semicolons(""), "");
}

#[test]
fn emission_with_title_and_reference() {
    let e = Emission {
        verse: VerseRecord {
            book: String::from("Ioan"),
            chapter: 3,
            verse: 16,
            text: String::from("text simplu"),
            title: String::from("Titlu"),
        },
        reference: Some(String::from("Rom 5.8;1Ioan 4.9")),
    };
    let out = render_emission(&e);
    assert_eq!(out, "\n### Titlu ###\n[3:16] text simplu (Rom 5.8, 1Ioan 4.9)\n");
}

#[test]
fn emission_without_title_or_reference() {
    let e = Emission {
        verse: VerseRecord {
            book: String::from("Ioan"),
            chapter: 1,
            verse: 1,
            text: String::from("La început"),
            title: String::new(),
        },
        reference: None,
    };
    let out = render_emission(&e);
    assert_eq!(out, "[1:1] La început\n");
    assert!(!out.contains('('));
}
