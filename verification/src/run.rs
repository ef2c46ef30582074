//! A whole run over a corpus held as lines in memory: the scan's
//! emissions in stream order, and their printed form.

use vstd::prelude::*;
use crate::emit::{render_emission, render_emission_spec};
use crate::record::{Emission, EmissionV, Query, QueryV};
use crate::scanner::{Scanner, ScanState, flush_emission, init_state, step};

verus! {

/// The sequence an optional emission contributes: one element or none.
pub open spec fn opt_seq(e: Option<EmissionV>) -> Seq<EmissionV> {
    match e {
        Some(x) => seq![x],
        None => Seq::<EmissionV>::empty(),
    }
}

/// A scan of a line sequence from a given state: the state it ends in
/// and everything it emits, in stream order.
pub open spec fn scan_from(q: QueryV, st: ScanState, lines: Seq<Seq<char>>) -> (
    ScanState,
    Seq<EmissionV>,
)
    decreases lines.len(),
{
    if lines.len() == 0 {
        (st, Seq::<EmissionV>::empty())
    } else {
        let first = step(q, st, lines[0]);
        let rest = scan_from(q, first.0, lines.skip(1));
        (rest.0, opt_seq(first.1) + rest.1)
    }
}

/// Everything a full run emits for a query: the scan from the initial
/// state, then the end-of-stream flush of the still-pending verse.
pub open spec fn run_spec(q: QueryV, lines: Seq<Seq<char>>) -> Seq<EmissionV> {
    let scanned = scan_from(q, init_state(), lines);
    scanned.1 + opt_seq(flush_emission(scanned.0, None))
}

/// Scanning one more line at the end appends that line's step.
pub proof fn lemma_scan_snoc(q: QueryV, st: ScanState, lines: Seq<Seq<char>>, l: Seq<char>)
    ensures
        scan_from(q, st, lines.push(l)).0 == step(q, scan_from(q, st, lines).0, l).0,
        scan_from(q, st, lines.push(l)).1 == scan_from(q, st, lines).1 + opt_seq(
            step(q, scan_from(q, st, lines).0, l).1,
        ),
    decreases lines.len(),
{
    reveal_with_fuel(scan_from, 2);
    if lines.len() == 0 {
        assert(lines.push(l)[0] == l);
        assert(lines.push(l).skip(1) =~= Seq::<Seq<char>>::empty());
        assert(scan_from(q, st, lines.push(l)).1 =~= scan_from(q, st, lines).1 + opt_seq(
            step(q, scan_from(q, st, lines).0, l).1,
        ));
    } else {
        assert(lines.push(l)[0] == lines[0]);
        assert(lines.push(l).skip(1) =~= lines.skip(1).push(l));
        lemma_scan_snoc(q, step(q, st, lines[0]).0, lines.skip(1), l);
        assert(scan_from(q, st, lines.push(l)).1 =~= scan_from(q, st, lines).1 + opt_seq(
            step(q, scan_from(q, st, lines).0, l).1,
        ));
    }
}

/// A scan of two stretches in a row is the scan of the first, then the
/// scan of the second from where the first ended.
pub proof fn lemma_scan_concat(q: QueryV, st: ScanState, a: Seq<Seq<char>>, b: Seq<Seq<char>>)
    ensures
        scan_from(q, st, a + b).0 == scan_from(q, scan_from(q, st, a).0, b).0,
        scan_from(q, st, a + b).1 == scan_from(q, st, a).1 + scan_from(
            q,
            scan_from(q, st, a).0,
            b,
        ).1,
    decreases a.len(),
{
    reveal_with_fuel(scan_from, 2);
    if a.len() == 0 {
        assert(a + b =~= b);
        assert(scan_from(q, st, a + b).1 =~= scan_from(q, st, a).1 + scan_from(
            q,
            scan_from(q, st, a).0,
            b,
        ).1);
    } else {
        assert((a + b)[0] == a[0]);
        assert((a + b).skip(1) =~= a.skip(1) + b);
        lemma_scan_concat(q, step(q, st, a[0]).0, a.skip(1), b);
        assert(scan_from(q, st, a + b).1 =~= scan_from(q, st, a).1 + scan_from(
            q,
            scan_from(q, st, a).0,
            b,
        ).1);
    }
}

/// A stopped scan stays stopped and emits nothing more.
pub proof fn lemma_scan_done(q: QueryV, st: ScanState, lines: Seq<Seq<char>>)
    requires
        st.done,
    ensures
        scan_from(q, st, lines).0 == st,
        scan_from(q, st, lines).1 == Seq::<EmissionV>::empty(),
    decreases lines.len(),
{
    reveal_with_fuel(scan_from, 2);
    if lines.len() > 0 {
        lemma_scan_done(q, st, lines.skip(1));
        assert(scan_from(q, st, lines).1 =~= Seq::<EmissionV>::empty());
    }
}

/// The views of a sequence of emissions.
pub open spec fn emissions_view(v: Seq<Emission>) -> Seq<EmissionV> {
    Seq::new(v.len(), |i: int| v[i]@)
}

/// The views of a sequence of owned lines.
pub open spec fn lines_view(v: Seq<String>) -> Seq<Seq<char>> {
    Seq::new(v.len(), |i: int| v[i]@)
}

/// Runs a whole query over corpus lines held in memory, producing the
/// emissions in stream order; in search mode the scan stops early at
/// the match cap and reads no further line.
pub fn run_query(query: Query, lines: &Vec<String>) -> (out: Vec<Emission>)
    ensures
        emissions_view(out@) == run_spec(query@, lines_view(lines@)),
{
    let ghost q = query@;
    let ghost lv = lines_view(lines@);
    let mut sc = Scanner::new(query);
    let mut out: Vec<Emission> = Vec::new();
    let mut i: usize = 0;
    proof {
        assert(lv.take(0) =~= Seq::<Seq<char>>::empty());
        assert(emissions_view(out@) =~= scan_from(q, init_state(), lv.take(0)).1);
    }
    while i < lines.len() && !sc.is_done()
        invariant
            sc.wf(),
            sc@.query == q,
            i <= lines.len(),
            lv == lines_view(lines@),
            sc@.st == scan_from(q, init_state(), lv.take(i as int)).0,
            emissions_view(out@) == scan_from(q, init_state(), lv.take(i as int)).1,
        decreases lines.len() - i,
    {
        let e = sc.push_line(lines[i].as_str());
        proof {
            lemma_scan_snoc(q, init_state(), lv.take(i as int), lv[i as int]);
            assert(lv.take(i + 1) =~= lv.take(i as int).push(lv[i as int]));
            assert(lines@[i as int]@ == lv[i as int]);
        }
        match e {
            Some(em) => {
                out.push(em);
            },
            None => {},
        }
        proof {
            assert(emissions_view(out@) =~= scan_from(q, init_state(), lv.take(i + 1)).1);
        }
        i = i + 1;
    }
    proof {
        if i < lines.len() {
            lemma_scan_concat(q, init_state(), lv.take(i as int), lv.skip(i as int));
            lemma_scan_done(q, sc@.st, lv.skip(i as int));
            assert(lv.take(i as int) + lv.skip(i as int) =~= lv);
            assert(emissions_view(out@) + Seq::<EmissionV>::empty() =~= emissions_view(out@));
        } else {
            assert(lv.take(i as int) =~= lv);
        }
    }
    let fin = sc.finish();
    match fin {
        Some(em) => {
            out.push(em);
        },
        None => {},
    }
    proof {
        assert(emissions_view(out@) =~= run_spec(q, lv));
    }
    out
}

/// The full printed output of a run: each emission's rendering,
/// concatenated in stream order.
pub open spec fn render_all(es: Seq<EmissionV>) -> Seq<char>
    decreases es.len(),
{
    if es.len() == 0 {
        Seq::<char>::empty()
    } else {
        render_emission_spec(es[0]) + render_all(es.skip(1))
    }
}

/// Rendering one more emission at the end appends its printed form.
pub proof fn lemma_render_all_snoc(es: Seq<EmissionV>, e: EmissionV)
    ensures
        render_all(es.push(e)) == render_all(es) + render_emission_spec(e),
    decreases es.len(),
{
    reveal_with_fuel(render_all, 2);
    if es.len() == 0 {
        assert(es.push(e)[0] == e);
        assert(es.push(e).skip(1) =~= Seq::<EmissionV>::empty());
        assert(render_all(es.push(e)) =~= render_all(es) + render_emission_spec(e));
    } else {
        assert(es.push(e)[0] == es[0]);
        assert(es.push(e).skip(1) =~= es.skip(1).push(e));
        lemma_render_all_snoc(es.skip(1), e);
        assert(render_all(es.push(e)) =~= render_all(es) + render_emission_spec(e));
    }
}

/// Runs a query and formats every emission: exactly the text the
/// terminal shows for that query over that corpus.
pub fn run_query_text(query: Query, lines: &Vec<String>) -> (out: String)
    ensures
        out@ == render_all(run_spec(query@, lines_view(lines@))),
{
    let ghost q = query@;
    let ghost lv = lines_view(lines@);
    let es = run_query(query, lines);
    let ghost ev = emissions_view(es@);
    let mut out = String::new();
    let mut j: usize = 0;
    proof {
        assert(ev.take(0) =~= Seq::<EmissionV>::empty());
    }
    while j < es.len()
        invariant
            ev == emissions_view(es@),
            ev == run_spec(q, lv),
            j <= es.len(),
            es@.len() == ev.len(),
            out@ == render_all(ev.take(j as int)),
        decreases es.len() - j,
    {
        let piece = render_emission(&es[j]);
        out.append(piece.as_str());
        proof {
            lemma_render_all_snoc(ev.take(j as int), ev[j as int]);
            assert(ev.take(j + 1) =~= ev.take(j as int).push(ev[j as int]));
        }
        j = j + 1;
    }
    proof {
        assert(ev.take(es@.len() as int) =~= ev);
    }
    out
}

} // verus!
