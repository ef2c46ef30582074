//! Formats one emission for the terminal: an optional title banner,
//! the `[chapter:verse]` prefix, the highlighted verse text, and an
//! optional parenthesized, comma-joined reference list.

use vstd::prelude::*;
use crate::highlight::{render, render_spec};
use crate::numbers::{dec_i32, push_dec_i32};
use crate::record::{Emission, EmissionV};
use crate::text::push_char;

verus! {

/// The reference list as printed: every `;` becomes `, `.
pub open spec fn semi_to_comma(s: Seq<char>) -> Seq<char>
    decreases s.len(),
{
    if s.len() == 0 {
        Seq::<char>::empty()
    } else {
        (if s[0] == ';' {
            seq![',', ' ']
        } else {
            seq![s[0]]
        }) + semi_to_comma(s.skip(1))
    }
}

/// Rewrites the reference separators for display: `;` becomes `, `.
pub fn replace_semicolons(s: &str) -> (out: String)
    ensures
        out@ == semi_to_comma(s@),
{
    let n = s.unicode_len();
    let mut out = String::new();
    let mut i: usize = 0;
    proof {
        assert(s@.skip(0) =~= s@);
        assert(out@ + semi_to_comma(s@) =~= semi_to_comma(s@));
    }
    while i < n
        invariant
            n == s@.len(),
            i <= n,
            semi_to_comma(s@) == out@ + semi_to_comma(s@.skip(i as int)),
        decreases n - i,
    {
        let c = s.get_char(i);
        proof {
            assert(s@.skip(i as int)[0] == s@[i as int]);
            assert(s@.skip(i as int).skip(1) =~= s@.skip(i + 1));
        }
        if c == ';' {
            push_char(&mut out, ',');
            push_char(&mut out, ' ');
        } else {
            push_char(&mut out, c);
        }
        i = i + 1;
    }
    proof {
        assert(s@.skip(n as int) =~= Seq::<char>::empty());
    }
    out
}

/// The title banner above a verse: a blank line, then the title
/// between `###` fences; nothing when the title is empty.
pub open spec fn title_banner(t: Seq<char>) -> Seq<char> {
    if t.len() > 0 {
        seq!['\n', '#', '#', '#', ' '] + t + seq![' ', '#', '#', '#', '\n']
    } else {
        Seq::<char>::empty()
    }
}

/// The printed reference group: ` (refs)` with separators rewritten;
/// nothing when no reference attached.
pub open spec fn reference_part(r: Option<Seq<char>>) -> Seq<char> {
    match r {
        Some(s) => seq![' ', '('] + semi_to_comma(s) + seq![')'],
        None => Seq::<char>::empty(),
    }
}

/// The full printed form of one emission: optional title banner,
/// `[chapter:verse] `, the highlighted text, the optional reference
/// group, and a line break.
pub open spec fn render_emission_spec(e: EmissionV) -> Seq<char> {
    title_banner(e.verse.title) + seq!['['] + dec_i32(e.verse.chapter) + seq![':'] + dec_i32(
        e.verse.verse,
    ) + seq![']', ' '] + render_spec(e.verse.text) + reference_part(e.reference) + seq!['\n']
}

proof fn lemma_emit_literals()
    ensures
        "\n### "@ == seq!['\n', '#', '#', '#', ' '],
        " ###\n"@ == seq![' ', '#', '#', '#', '\n'],
{
    reveal_strlit("\n### ");
    reveal_strlit(" ###\n");
    assert("\n### "@ =~= seq!['\n', '#', '#', '#', ' ']);
    assert(" ###\n"@ =~= seq![' ', '#', '#', '#', '\n']);
}

/// Formats one emission as the terminal sees it.
pub fn render_emission(e: &Emission) -> (out: String)
    ensures
        out@ == render_emission_spec(e@),
{
    let mut out = String::new();
    if !e.verse.title.as_str().is_empty() {
        proof {
            lemma_emit_literals();
        }
        out.append("\n### ");
        out.append(e.verse.title.as_str());
        out.append(" ###\n");
    }
    push_char(&mut out, '[');
    push_dec_i32(&mut out, e.verse.chapter);
    push_char(&mut out, ':');
    push_dec_i32(&mut out, e.verse.verse);
    push_char(&mut out, ']');
    push_char(&mut out, ' ');
    let body = render(e.verse.text.as_str());
    out.append(body.as_str());
    match &e.reference {
        Some(r) => {
            push_char(&mut out, ' ');
            push_char(&mut out, '(');
            let rr = replace_semicolons(r.as_str());
            out.append(rr.as_str());
            push_char(&mut out, ')');
        },
        None => {},
    }
    push_char(&mut out, '\n');
    proof {
        assert(out@ =~= render_emission_spec(e@));
    }
    out
}

} // verus!
