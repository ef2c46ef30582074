//! The library's global guarantees, stated and proved over the spec
//! model: normalization is idempotent and case-blind, a search run
//! never emits more than the cap, a reference line attaches to exactly
//! the verse it follows, and a wildcard locator run emits exactly the
//! matching candidate verses.

use vstd::prelude::*;
use crate::numbers::parse_i32_spec;
use crate::record::{EmissionV, QueryV, VerseV};
use crate::scanner::{LineKind, ScanState, SEARCH_CAP, classify, flush_emission, init_state, step};
use crate::text::{ascii_lower, ci_eq, fold_diacritic, lower_of, lower_of_facts, norm_char, norm_seq};
use crate::run::{opt_seq, run_spec, scan_from};

verus! {

/// One character normalizes to a fixed point: normalizing twice is
/// normalizing once. Holds under the documented facts of the Unicode
/// lowercase mapping, which the lowering wrapper vouches for.
pub proof fn lemma_norm_char_idempotent(c: char)
    requires
        lower_of_facts(),
    ensures
        norm_char(norm_char(c)) == norm_char(c),
{
    let d = lower_of(c);
    assert(lower_of(lower_of(c)) == lower_of(c));
    let nc = fold_diacritic(d);
    if d == 'ă' || d == 'â' || d == 'î' || d == 'ș' || d == 'ş' || d == 'ț' || d == 'ţ' {
        assert(lower_of(nc) == ascii_lower(nc));
    } else {
        assert(nc == d);
    }
    assert(lower_of(nc) == nc);
    assert(norm_char(nc) == nc);
}

/// Normalization is idempotent: normalizing an already normalized
/// text changes nothing. Holds under the documented facts of the
/// Unicode lowercase mapping.
pub proof fn lemma_normalize_idempotent(s: Seq<char>)
    requires
        lower_of_facts(),
    ensures
        norm_seq(norm_seq(s)) == norm_seq(s),
{
    assert forall|i: int| 0 <= i < s.len() implies norm_char(norm_char(s[i])) == norm_char(
        s[i],
    ) by {
        lemma_norm_char_idempotent(s[i]);
    }
    assert(norm_seq(norm_seq(s)) =~= norm_seq(s));
}

/// Letter case never reaches the normalized form: lowercasing a
/// character first changes nothing, its ASCII-lowered form normalizes
/// alike, and each accented capital in scope normalizes like its
/// small counterpart. Holds under the documented facts of the Unicode
/// lowercase mapping.
pub proof fn lemma_norm_char_case_blind(c: char)
    requires
        lower_of_facts(),
    ensures
        norm_char(lower_of(c)) == norm_char(c),
        norm_char(ascii_lower(c)) == norm_char(c),
        norm_char('Ă') == norm_char('ă'),
        norm_char('Â') == norm_char('â'),
        norm_char('Î') == norm_char('î'),
        norm_char('Ș') == norm_char('ș'),
        norm_char('Ş') == norm_char('ş'),
        norm_char('Ț') == norm_char('ț'),
        norm_char('Ţ') == norm_char('ţ'),
{
    assert(lower_of(lower_of(c)) == lower_of(c));
    if 'A' <= c && c <= 'Z' {
        assert(lower_of(c) == ascii_lower(c));
        let lc = ascii_lower(c);
        assert(lower_of(lc) == ascii_lower(lc));
        assert(ascii_lower(lc) == lc);
    } else {
        assert(ascii_lower(c) == c);
    }
    assert(lower_of(lower_of('Ă')) == lower_of('Ă'));
    assert(lower_of(lower_of('Â')) == lower_of('Â'));
    assert(lower_of(lower_of('Î')) == lower_of('Î'));
    assert(lower_of(lower_of('Ș')) == lower_of('Ș'));
    assert(lower_of(lower_of('Ş')) == lower_of('Ş'));
    assert(lower_of(lower_of('Ț')) == lower_of('Ț'));
    assert(lower_of(lower_of('Ţ')) == lower_of('Ţ'));
}

/// Letter case never reaches the normalized form of a whole text:
/// lowercasing every character first, or ASCII-lowering it, yields
/// the same normalized text. Holds under the documented facts of the
/// Unicode lowercase mapping.
pub proof fn lemma_normalize_case_blind(s: Seq<char>)
    requires
        lower_of_facts(),
    ensures
        norm_seq(Seq::new(s.len(), |i: int| lower_of(s[i]))) == norm_seq(s),
        norm_seq(Seq::new(s.len(), |i: int| ascii_lower(s[i]))) == norm_seq(s),
{
    let lowered = Seq::new(s.len(), |i: int| lower_of(s[i]));
    assert forall|i: int| 0 <= i < s.len() implies norm_char(lowered[i]) == norm_char(s[i]) by {
        lemma_norm_char_case_blind(s[i]);
    }
    assert(norm_seq(lowered) =~= norm_seq(s));
    let ascii_lowered = Seq::new(s.len(), |i: int| ascii_lower(s[i]));
    assert forall|i: int| 0 <= i < s.len() implies norm_char(ascii_lowered[i]) == norm_char(
        s[i],
    ) by {
        lemma_norm_char_case_blind(s[i]);
    }
    assert(norm_seq(ascii_lowered) =~= norm_seq(s));
}

/// How many emissions a pending slot stands for.
pub open spec fn pend_n(st: ScanState) -> int {
    if st.pending is Some {
        1
    } else {
        0
    }
}

/// A scan with everything flushed at the end.
pub open spec fn scan_total(q: QueryV, st: ScanState, lines: Seq<Seq<char>>) -> Seq<EmissionV> {
    scan_from(q, st, lines).1 + opt_seq(flush_emission(scan_from(q, st, lines).0, None))
}

proof fn lemma_search_scan_cap(q: QueryV, st: ScanState, lines: Seq<Seq<char>>)
    requires
        q is Search,
        st.count <= SEARCH_CAP as int,
    ensures
        scan_total(q, st, lines).len() <= pend_n(st) + SEARCH_CAP as int - st.count,
    decreases lines.len(),
{
    if lines.len() == 0 {
    } else {
        let st1 = step(q, st, lines[0]).0;
        lemma_search_scan_cap(q, st1, lines.skip(1));
    }
}

/// A search run never emits more than the cap, whatever the corpus
/// and however broad the term.
pub proof fn lemma_search_cap(term: Seq<char>, lines: Seq<Seq<char>>)
    ensures
        run_spec(QueryV::Search { term }, lines).len() <= SEARCH_CAP as int,
{
    lemma_search_scan_cap(QueryV::Search { term }, init_state(), lines);
}

/// A reference line releases exactly the verse pending before it, with
/// exactly this line's reference list attached, and leaves nothing
/// pending.
pub proof fn lemma_reference_attaches(
    q: QueryV,
    st: ScanState,
    line: Seq<char>,
    v: VerseV,
    rest: Seq<char>,
)
    requires
        !st.done,
        st.pending == Some(v),
        classify(line) == (LineKind::Reference { rest }),
    ensures
        step(q, st, line).1 == Some(EmissionV { verse: v, reference: Some(rest) }),
        step(q, st, line).0.pending is None,
{
}

/// Any other non-blank line releases the pending verse with no
/// reference group at all: a later verse's reference cannot reach it.
pub proof fn lemma_flush_without_reference(q: QueryV, st: ScanState, line: Seq<char>, v: VerseV)
    requires
        !st.done,
        st.pending == Some(v),
        !(classify(line) is Blank),
        !(classify(line) is Reference),
    ensures
        step(q, st, line).1 == Some(EmissionV { verse: v, reference: None }),
{
}

/// A candidate verse: one verse line of the corpus, read under the
/// book and chapter context in force where it stands, before any
/// query is asked of it.
pub struct CandidateV {
    pub book: Seq<char>,
    pub chapter: int,
    pub verse: int,
    pub text: Seq<char>,
}

/// Every candidate verse of the line stretch, in order, starting from
/// the given context.
pub open spec fn candidates_from(book: Seq<char>, chapter: int, lines: Seq<Seq<char>>) -> Seq<
    CandidateV,
>
    decreases lines.len(),
{
    if lines.len() == 0 {
        Seq::<CandidateV>::empty()
    } else {
        match classify(lines[0]) {
            LineKind::Book { rest } => candidates_from(rest, 0, lines.skip(1)),
            LineKind::Chapter { rest } => candidates_from(
                book,
                parse_i32_spec(rest) as int,
                lines.skip(1),
            ),
            LineKind::Verse { number, text } => seq![
                CandidateV { book, chapter, verse: parse_i32_spec(number) as int, text },
            ] + candidates_from(book, chapter, lines.skip(1)),
            _ => candidates_from(book, chapter, lines.skip(1)),
        }
    }
}

/// The candidates whose book equals the locator's, up to ASCII case.
pub open spec fn book_filter(cs: Seq<CandidateV>, qbook: Seq<char>) -> Seq<CandidateV>
    decreases cs.len(),
{
    if cs.len() == 0 {
        Seq::<CandidateV>::empty()
    } else {
        (if ci_eq(cs[0].book, qbook) {
            seq![cs[0]]
        } else {
            Seq::<CandidateV>::empty()
        }) + book_filter(cs.skip(1), qbook)
    }
}

/// The verse core of an emitted verse: what it says apart from the
/// title banner and the reference group.
pub open spec fn core_of(v: VerseV) -> CandidateV {
    CandidateV { book: v.book, chapter: v.chapter, verse: v.verse, text: v.text }
}

/// The verse cores of a run's emissions, in order.
pub open spec fn cores(es: Seq<EmissionV>) -> Seq<CandidateV> {
    Seq::new(es.len(), |i: int| core_of(es[i].verse))
}

proof fn lemma_read_wildcard_scan(qb: Seq<char>, st: ScanState, lines: Seq<Seq<char>>)
    requires
        !st.done,
    ensures
        cores(scan_total(QueryV::Read { book: qb, chapter: 0, verse: 0 }, st, lines)) == cores(
            opt_seq(flush_emission(st, None)),
        ) + book_filter(candidates_from(st.book, st.chapter, lines), qb),
    decreases lines.len(),
{
    reveal_with_fuel(scan_from, 2);
    let q = QueryV::Read { book: qb, chapter: 0, verse: 0 };
    if lines.len() == 0 {
        assert(cores(scan_total(q, st, lines)) =~= cores(opt_seq(flush_emission(st, None)))
            + book_filter(candidates_from(st.book, st.chapter, lines), qb));
    } else {
        let l = lines[0];
        let rest_lines = lines.skip(1);
        let stp = step(q, st, l);
        let st1 = stp.0;
        assert(!st1.done);
        lemma_read_wildcard_scan(qb, st1, rest_lines);
        assert(scan_total(q, st, lines) =~= opt_seq(stp.1) + scan_total(q, st1, rest_lines));
        assert(cores(opt_seq(stp.1) + scan_total(q, st1, rest_lines)) =~= cores(opt_seq(stp.1))
            + cores(scan_total(q, st1, rest_lines)));
        match classify(l) {
            LineKind::Blank => {
                assert(cores(scan_total(q, st, lines)) =~= cores(opt_seq(flush_emission(st, None)))
                    + book_filter(candidates_from(st.book, st.chapter, lines), qb));
            },
            LineKind::Reference { rest } => {
                assert(cores(opt_seq(stp.1)) =~= cores(opt_seq(flush_emission(st, None))));
                assert(cores(scan_total(q, st, lines)) =~= cores(opt_seq(flush_emission(st, None)))
                    + book_filter(candidates_from(st.book, st.chapter, lines), qb));
            },
            LineKind::Book { rest } => {
                assert(cores(scan_total(q, st, lines)) =~= cores(opt_seq(flush_emission(st, None)))
                    + book_filter(candidates_from(st.book, st.chapter, lines), qb));
            },
            LineKind::Chapter { rest } => {
                assert(cores(scan_total(q, st, lines)) =~= cores(opt_seq(flush_emission(st, None)))
                    + book_filter(candidates_from(st.book, st.chapter, lines), qb));
            },
            LineKind::Title { rest } => {
                assert(cores(scan_total(q, st, lines)) =~= cores(opt_seq(flush_emission(st, None)))
                    + book_filter(candidates_from(st.book, st.chapter, lines), qb));
            },
            LineKind::Verse { number, text } => {
                let vn = parse_i32_spec(number) as int;
                let cand = CandidateV { book: st.book, chapter: st.chapter, verse: vn, text };
                let cs = candidates_from(st.book, st.chapter, lines);
                assert(cs == seq![cand] + candidates_from(st.book, st.chapter, rest_lines));
                assert(cs[0] == cand);
                assert(cs.skip(1) =~= candidates_from(st.book, st.chapter, rest_lines));
                assert(book_filter(cs, qb) == (if ci_eq(cand.book, qb) {
                    seq![cand]
                } else {
                    Seq::<CandidateV>::empty()
                }) + book_filter(candidates_from(st.book, st.chapter, rest_lines), qb));
                if ci_eq(st.book, qb) {
                    assert(cores(opt_seq(flush_emission(st1, None))) =~= seq![cand]);
                } else {
                    assert(cores(opt_seq(flush_emission(st1, None))) =~= Seq::<
                        CandidateV,
                    >::empty());
                }
                assert(cores(scan_total(q, st, lines)) =~= cores(opt_seq(flush_emission(st, None)))
                    + book_filter(candidates_from(st.book, st.chapter, lines), qb));
            },
            LineKind::Other => {
                assert(cores(scan_total(q, st, lines)) =~= cores(opt_seq(flush_emission(st, None)))
                    + book_filter(candidates_from(st.book, st.chapter, lines), qb));
            },
        }
    }
}

/// A locator run with wildcard chapter and verse emits exactly the
/// candidate verses whose book matches the locator's up to ASCII
/// case, in corpus order: every emitted verse's book matches, and no
/// verse that matches is omitted.
pub proof fn lemma_read_wildcard_complete(book: Seq<char>, lines: Seq<Seq<char>>)
    ensures
        cores(run_spec(QueryV::Read { book, chapter: 0, verse: 0 }, lines)) == book_filter(
            candidates_from(Seq::<char>::empty(), 0, lines),
            book,
        ),
{
    let q = QueryV::Read { book, chapter: 0, verse: 0 };
    lemma_read_wildcard_scan(book, init_state(), lines);
    assert(run_spec(q, lines) == scan_total(q, init_state(), lines));
    assert(cores(run_spec(q, lines)) =~= book_filter(
        candidates_from(Seq::<char>::empty(), 0, lines),
        book,
    ));
}

} // verus!
