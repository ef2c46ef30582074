//! The single-pass record scanner. It consumes the corpus one line at
//! a time, keeps the book/chapter/title context, holds each matched
//! verse back for one line so that a trailing cross-reference list can
//! attach to it, and in search mode stops after a fixed number of
//! matches.

use vstd::prelude::*;
use crate::numbers::{is_digit_char, parse_i32, parse_i32_spec};
use crate::record::{Emission, EmissionV, Query, QueryV, VerseRecord, VerseV, query_matches, matches_spec};
use crate::text::{first_space, first_space_from, trim_end, trim_end_spec};

verus! {

/// In search mode the scan stops once this many verses have matched.
pub const SEARCH_CAP: u32 = 50;

/// What one trimmed corpus line is: a record marker with its payload,
/// a verse line, a blank line, or something unrecognized (tolerated
/// and ignored).
pub enum LineKind {
    Blank,
    Reference { rest: Seq<char> },
    Book { rest: Seq<char> },
    Chapter { rest: Seq<char> },
    Title { rest: Seq<char> },
    Verse { number: Seq<char>, text: Seq<char> },
    Other,
}

/// A two-character record marker: the marker letter, then one space.
pub open spec fn marker2(t: Seq<char>, m: char) -> bool {
    t.len() >= 2 && t[0] == m && t[1] == ' '
}

/// Classifies a raw line the way the scan reads it: trailing
/// whitespace is stripped first; a verse line starts with a decimal
/// digit and splits at its first space into number and text; a digit
/// line without a space, or a line with an unknown leading character,
/// is ignored.
pub open spec fn classify(line: Seq<char>) -> LineKind {
    let t = trim_end_spec(line);
    if t.len() == 0 {
        LineKind::Blank
    } else if marker2(t, 'R') {
        LineKind::Reference { rest: t.skip(2) }
    } else if marker2(t, '#') {
        LineKind::Book { rest: t.skip(2) }
    } else if marker2(t, '=') {
        LineKind::Chapter { rest: t.skip(2) }
    } else if marker2(t, 'T') {
        LineKind::Title { rest: t.skip(2) }
    } else if is_digit_char(t[0]) {
        match first_space_from(t, 0) {
            Some(k) => LineKind::Verse { number: t.take(k), text: t.skip(k + 1) },
            None => LineKind::Other,
        }
    } else {
        LineKind::Other
    }
}

/// The scanner's abstract state: the active context, the verse held
/// back for a possible trailing reference, the search-match count, and
/// whether the scan has stopped early.
pub struct ScanState {
    pub book: Seq<char>,
    pub chapter: int,
    pub title: Seq<char>,
    pub pending: Option<VerseV>,
    pub count: int,
    pub done: bool,
}

/// The state a scan starts from: empty context, nothing pending.
pub open spec fn init_state() -> ScanState {
    ScanState {
        book: Seq::<char>::empty(),
        chapter: 0,
        title: Seq::<char>::empty(),
        pending: None,
        count: 0,
        done: false,
    }
}

/// The emission produced by flushing the pending verse, if one is
/// pending, with the given reference attached.
pub open spec fn flush_emission(st: ScanState, reference: Option<Seq<char>>) -> Option<EmissionV> {
    match st.pending {
        Some(v) => Some(EmissionV { verse: v, reference }),
        None => None,
    }
}

/// How a verse line changes the state: a matching verse becomes the
/// pending verse and consumes the title; in search mode the match
/// count rises, and a match past the cap stops the scan instead of
/// being kept.
pub open spec fn step_verse(q: QueryV, st: ScanState, number: Seq<char>, text: Seq<char>) -> ScanState {
    let vn = parse_i32_spec(number) as int;
    if matches_spec(q, st.book, st.chapter, vn, text) {
        let rec = VerseV {
            book: st.book,
            chapter: st.chapter,
            verse: vn,
            text: text,
            title: st.title,
        };
        if q is Search {
            if st.count >= SEARCH_CAP as int {
                ScanState { done: true, ..st }
            } else {
                ScanState {
                    pending: Some(rec),
                    title: Seq::<char>::empty(),
                    count: st.count + 1,
                    ..st
                }
            }
        } else {
            ScanState { pending: Some(rec), title: Seq::<char>::empty(), ..st }
        }
    } else {
        st
    }
}

/// One step of the scan: what the state becomes and what is emitted
/// when one raw line is read. A reference line flushes the pending
/// verse with the reference attached; any other non-blank line first
/// flushes it with none; a stopped scan reads nothing further.
pub open spec fn step(q: QueryV, st: ScanState, line: Seq<char>) -> (ScanState, Option<EmissionV>) {
    if st.done {
        (st, None)
    } else {
        match classify(line) {
            LineKind::Blank => (st, None),
            LineKind::Reference { rest } => (
                ScanState { pending: None, ..st },
                flush_emission(st, Some(rest)),
            ),
            kind => {
                let e = flush_emission(st, None);
                let st1 = ScanState { pending: None, ..st };
                let st2 = match kind {
                    LineKind::Book { rest } => ScanState {
                        book: rest,
                        chapter: 0,
                        title: Seq::<char>::empty(),
                        ..st1
                    },
                    LineKind::Chapter { rest } => ScanState {
                        chapter: parse_i32_spec(rest) as int,
                        title: Seq::<char>::empty(),
                        ..st1
                    },
                    LineKind::Title { rest } => ScanState { title: rest, ..st1 },
                    LineKind::Verse { number, text } => step_verse(q, st1, number, text),
                    _ => st1,
                };
                (st2, e)
            },
        }
    }
}

/// Flushing at end of stream: the pending verse, if any, goes out with
/// no reference.
pub open spec fn finish_spec(st: ScanState) -> (ScanState, Option<EmissionV>) {
    (ScanState { pending: None, ..st }, flush_emission(st, None))
}

/// The streaming scanner. Feed it raw lines in corpus order with
/// `push_line`, then call `finish` once; each call hands back at most
/// one emission. `is_done` reports the search cap having been reached,
/// after which further lines change nothing.
pub struct Scanner {
    query: Query,
    book: String,
    chapter: i32,
    title: String,
    pending: Option<VerseRecord>,
    count: u32,
    done: bool,
}

/// The mathematical shadow of a `Scanner`: its query and its scan
/// state.
pub struct ScannerV {
    pub query: QueryV,
    pub st: ScanState,
}

impl View for Scanner {
    type V = ScannerV;

    closed spec fn view(&self) -> ScannerV {
        ScannerV {
            query: self.query@,
            st: ScanState {
                book: self.book@,
                chapter: self.chapter as int,
                title: self.title@,
                pending: match self.pending {
                    Some(ref v) => Some(v@),
                    None => None,
                },
                count: self.count as int,
                done: self.done,
            },
        }
    }
}

/// The view of an optional emission.
pub open spec fn emission_opt_view(e: Option<Emission>) -> Option<EmissionV> {
    match e {
        Some(em) => Some(em@),
        None => None,
    }
}

impl Scanner {
    /// The scanner's internal bound: the match count never passes the
    /// search cap.
    pub open spec fn wf(&self) -> bool {
        self@.st.count <= SEARCH_CAP as int
    }

    /// A fresh scanner for one query, in the initial scan state.
    pub fn new(query: Query) -> (s: Scanner)
        ensures
            s.wf(),
            s@.query == query@,
            s@.st == init_state(),
    {
        Scanner {
            query,
            book: String::new(),
            chapter: 0,
            title: String::new(),
            pending: None,
            count: 0,
            done: false,
        }
    }

    /// True once the scan has stopped early (search cap reached);
    /// the caller may stop feeding lines.
    pub fn is_done(&self) -> (r: bool)
        ensures
            r == self@.st.done,
    {
        self.done
    }

    /// Reads one raw corpus line and hands back the emission it
    /// releases, if any. The state advances exactly as `step` says.
    pub fn push_line(&mut self, line: &str) -> (out: Option<Emission>)
        requires
            old(self).wf(),
        ensures
            final(self).wf(),
            final(self)@.query == old(self)@.query,
            final(self)@.st == step(old(self)@.query, old(self)@.st, line@).0,
            emission_opt_view(out) == step(old(self)@.query, old(self)@.st, line@).1,
    {
        if self.done {
            return None;
        }
        let t = trim_end(line);
        let n = t.unicode_len();
        if n == 0 {
            return None;
        }
        let c0 = t.get_char(0);
        let m2 = n >= 2 && t.get_char(1) == ' ';
        if m2 && c0 == 'R' {
            let rest = t.substring_char(2, n);
            proof {
                assert(t@.subrange(2, n as int) =~= t@.skip(2));
            }
            let flushed = self.pending.take();
            return match flushed {
                Some(v) => Some(Emission { verse: v, reference: Some(String::from_str(rest)) }),
                None => None,
            };
        }
        let flushed = self.pending.take();
        let out = match flushed {
            Some(v) => Some(Emission { verse: v, reference: None }),
            None => None,
        };
        if m2 && c0 == '#' {
            let rest = t.substring_char(2, n);
            proof {
                assert(t@.subrange(2, n as int) =~= t@.skip(2));
            }
            self.book = String::from_str(rest);
            self.chapter = 0;
            self.title = String::new();
        } else if m2 && c0 == '=' {
            let rest = t.substring_char(2, n);
            proof {
                assert(t@.subrange(2, n as int) =~= t@.skip(2));
            }
            self.chapter = parse_i32(rest);
            self.title = String::new();
        } else if m2 && c0 == 'T' {
            let rest = t.substring_char(2, n);
            proof {
                assert(t@.subrange(2, n as int) =~= t@.skip(2));
            }
            self.title = String::from_str(rest);
        } else if '0' <= c0 && c0 <= '9' {
            match first_space(t) {
                Some(k) => {
                    proof {
                        crate::text::lemma_first_space_some(t@, 0, k as int);
                    }
                    let number = t.substring_char(0, k);
                    let text = t.substring_char(k + 1, n);
                    proof {
                        assert(t@.subrange(0, k as int) =~= t@.take(k as int));
                        assert(t@.subrange(k + 1, n as int) =~= t@.skip(k + 1));
                    }
                    let vn = parse_i32(number);
                    if query_matches(&self.query, self.book.as_str(), self.chapter, vn, text) {
                        let is_search = match &self.query {
                            Query::Search { .. } => true,
                            Query::Read { .. } => false,
                        };
                        if is_search && self.count >= SEARCH_CAP {
                            self.done = true;
                        } else {
                            self.pending = Some(
                                VerseRecord {
                                    book: self.book.clone(),
                                    chapter: self.chapter,
                                    verse: vn,
                                    text: String::from_str(text),
                                    title: self.title.clone(),
                                },
                            );
                            self.title = String::new();
                            if is_search {
                                self.count = self.count + 1;
                            }
                        }
                    }
                },
                None => {},
            }
        }
        out
    }

    /// Ends the scan: the still-pending verse, if any, goes out with
    /// no reference.
    pub fn finish(&mut self) -> (out: Option<Emission>)
        requires
            old(self).wf(),
        ensures
            final(self).wf(),
            final(self)@.query == old(self)@.query,
            final(self)@.st == finish_spec(old(self)@.st).0,
            emission_opt_view(out) == finish_spec(old(self)@.st).1,
    {
        let flushed = self.pending.take();
        match flushed {
            Some(v) => Some(Emission { verse: v, reference: None }),
            None => None,
        }
    }
}

} // verus!
