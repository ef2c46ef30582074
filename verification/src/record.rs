//! The data carried through a scan: a matched verse, the emission it
//! becomes (verse plus optional trailing cross-reference), and the
//! active query.

use vstd::prelude::*;
use crate::text::{ci_eq, contains_seq, eq_ignore_case, norm_seq, normalize, contains_sub};

verus! {

/// A verse the scanner accepted, together with the context it was
/// read under. The title is the section title that applies to this
/// verse, or empty when none does.
#[derive(Debug, Clone, PartialEq, Eq)]
pub struct VerseRecord {
    pub book: String,
    pub chapter: i32,
    pub verse: i32,
    pub text: String,
    pub title: String,
}

/// The mathematical shadow of a `VerseRecord`.
pub struct VerseV {
    pub book: Seq<char>,
    pub chapter: int,
    pub verse: int,
    pub text: Seq<char>,
    pub title: Seq<char>,
}

impl View for VerseRecord {
    type V = VerseV;

    open spec fn view(&self) -> VerseV {
        VerseV {
            book: self.book@,
            chapter: self.chapter as int,
            verse: self.verse as int,
            text: self.text@,
            title: self.title@,
        }
    }
}

/// One result of a scan: a matched verse and, when the very next
/// corpus line was a cross-reference list, that list's raw text.
#[derive(Debug, Clone, PartialEq, Eq)]
pub struct Emission {
    pub verse: VerseRecord,
    pub reference: Option<String>,
}

/// The mathematical shadow of an `Emission`.
pub struct EmissionV {
    pub verse: VerseV,
    pub reference: Option<Seq<char>>,
}

impl View for Emission {
    type V = EmissionV;

    open spec fn view(&self) -> EmissionV {
        EmissionV {
            verse: self.verse@,
            reference: match self.reference {
                Some(ref r) => Some(r@),
                None => None,
            },
        }
    }
}

/// The query a scan answers: either a locator (book, with chapter and
/// verse numbers where 0 is a wildcard), or a search term held in its
/// normalized form.
#[derive(Debug, Clone)]
pub enum Query {
    Read { book: String, chapter: i32, verse: i32 },
    Search { term: String },
}

/// The mathematical shadow of a `Query`.
pub enum QueryV {
    Read { book: Seq<char>, chapter: int, verse: int },
    Search { term: Seq<char> },
}

impl View for Query {
    type V = QueryV;

    open spec fn view(&self) -> QueryV {
        match self {
            Query::Read { book, chapter, verse } => QueryV::Read {
                book: book@,
                chapter: *chapter as int,
                verse: *verse as int,
            },
            Query::Search { term } => QueryV::Search { term: term@ },
        }
    }
}

/// Builds a locator query; chapter or verse 0 means "match any".
pub fn read_locator(book: &str, chapter: i32, verse: i32) -> (q: Query)
    ensures
        q@ == (QueryV::Read { book: book@, chapter: chapter as int, verse: verse as int }),
{
    Query::Read { book: String::from_str(book), chapter, verse }
}

/// Builds a search query from raw words; the term is normalized here,
/// once, so that matching compares normalized text on both sides.
pub fn search_term(raw: &str) -> (q: Query)
    ensures
        q@ == (QueryV::Search { term: norm_seq(raw@) }),
{
    Query::Search { term: normalize(raw) }
}

/// Whether a candidate verse, seen under the given book and chapter
/// context, answers the query: a locator wants the book equal up to
/// ASCII case and each non-wildcard number equal; a search wants its
/// normalized term to occur in the verse's normalized text.
pub open spec fn matches_spec(
    q: QueryV,
    book: Seq<char>,
    chapter: int,
    verse: int,
    text: Seq<char>,
) -> bool {
    match q {
        QueryV::Read { book: qb, chapter: qc, verse: qv } => ci_eq(book, qb) && (qc == 0
            || chapter == qc) && (qv == 0 || verse == qv),
        QueryV::Search { term } => contains_seq(norm_seq(text), term),
    }
}

/// Decides whether a candidate verse answers the query.
pub fn query_matches(q: &Query, book: &str, chapter: i32, verse: i32, text: &str) -> (r: bool)
    ensures
        r == matches_spec(q@, book@, chapter as int, verse as int, text@),
{
    match q {
        Query::Read { book: qb, chapter: qc, verse: qv } => {
            eq_ignore_case(book, qb.as_str()) && (*qc == 0 || chapter == *qc) && (*qv == 0 || verse
                == *qv)
        },
        Query::Search { term } => {
            let tn = normalize(text);
            contains_sub(tn.as_str(), term.as_str())
        },
    }
}

} // verus!
