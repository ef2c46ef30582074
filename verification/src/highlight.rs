//! Rewrites the corpus' inline highlight markup into terminal color
//! escape codes. The corpus is not perfectly normalized, so several
//! quoting variants of the same opening marker are recognized; every
//! character outside a recognized marker passes through unchanged.

use vstd::prelude::*;
use crate::text::{push_char, starts_with};

verus! {

/// The escape sequence that starts red text.
pub open spec fn color_red() -> Seq<char> {
    seq!['\x1b', '[', '3', '1', 'm']
}

/// The escape sequence that resets the text color.
pub open spec fn color_reset() -> Seq<char> {
    seq!['\x1b', '[', '0', 'm']
}

/// The opening marker with escaped quotes, as some corpus lines carry it.
pub open spec fn span_open_escaped() -> Seq<char> {
    seq![
        '<',
        's',
        'p',
        'a',
        'n',
        ' ',
        'c',
        'l',
        'a',
        's',
        's',
        '=',
        '\\',
        '\'',
        'I',
        's',
        'u',
        's',
        '\\',
        '\'',
        '>',
    ]
}

/// The opening marker with single quotes.
pub open spec fn span_open_single() -> Seq<char> {
    seq![
        '<',
        's',
        'p',
        'a',
        'n',
        ' ',
        'c',
        'l',
        'a',
        's',
        's',
        '=',
        '\'',
        'I',
        's',
        'u',
        's',
        '\'',
        '>',
    ]
}

/// The opening marker with double quotes.
pub open spec fn span_open_double() -> Seq<char> {
    seq![
        '<',
        's',
        'p',
        'a',
        'n',
        ' ',
        'c',
        'l',
        'a',
        's',
        's',
        '=',
        '"',
        'I',
        's',
        'u',
        's',
        '"',
        '>',
    ]
}

/// The closing marker.
pub open spec fn span_close() -> Seq<char> {
    seq!['<', '/', 's', 'p', 'a', 'n', '>']
}

/// The rendered form of a verse text: each recognized opening marker
/// becomes the start-red escape, each closing marker becomes the reset
/// escape, and every other character is copied through unchanged.
pub open spec fn render_spec(s: Seq<char>) -> Seq<char>
    decreases s.len(),
{
    if s.len() == 0 {
        Seq::<char>::empty()
    } else if starts_with(s, span_open_escaped()) {
        color_red() + render_spec(s.skip(21))
    } else if starts_with(s, span_open_single()) {
        color_red() + render_spec(s.skip(19))
    } else if starts_with(s, span_open_double()) {
        color_red() + render_spec(s.skip(19))
    } else if starts_with(s, span_close()) {
        color_reset() + render_spec(s.skip(7))
    } else {
        seq![s[0]] + render_spec(s.skip(1))
    }
}

proof fn lemma_marker_literals()
    ensures
        "<span class=\\'Isus\\'>"@ == span_open_escaped(),
        "<span class='Isus'>"@ == span_open_single(),
        "<span class=\"Isus\">"@ == span_open_double(),
        "</span>"@ == span_close(),
        "\x1b[31m"@ == color_red(),
        "\x1b[0m"@ == color_reset(),
{
    reveal_strlit("<span class=\\'Isus\\'>");
    reveal_strlit("<span class='Isus'>");
    reveal_strlit("<span class=\"Isus\">");
    reveal_strlit("</span>");
    reveal_strlit("\x1b[31m");
    reveal_strlit("\x1b[0m");
    assert("<span class=\\'Isus\\'>"@ =~= span_open_escaped());
    assert("<span class='Isus'>"@ =~= span_open_single());
    assert("<span class=\"Isus\">"@ =~= span_open_double());
    assert("</span>"@ =~= span_close());
    assert("\x1b[31m"@ =~= color_red());
    assert("\x1b[0m"@ =~= color_reset());
}

/// Renders a verse text for the terminal, replacing highlight markup
/// with color escape codes and copying everything else through.
pub fn render(text: &str) -> (out: String)
    ensures
        out@ == render_spec(text@),
{
    let n = text.unicode_len();
    let mut out = String::new();
    let mut i: usize = 0;
    proof {
        assert(text@.skip(0) =~= text@);
        assert(out@ + render_spec(text@) =~= render_spec(text@));
    }
    while i < n
        invariant
            n == text@.len(),
            i <= n,
            render_spec(text@) == out@ + render_spec(text@.skip(i as int)),
        decreases n - i,
    {
        proof {
            lemma_marker_literals();
        }
        let rem = text.substring_char(i, n);
        proof {
            assert(rem@ =~= text@.skip(i as int));
        }
        if crate::text::has_prefix(rem, "<span class=\\'Isus\\'>") {
            out.append("\x1b[31m");
            proof {
                assert(text@.skip(i as int).skip(21) =~= text@.skip(i + 21));
            }
            i = i + 21;
        } else if crate::text::has_prefix(rem, "<span class='Isus'>") {
            out.append("\x1b[31m");
            proof {
                assert(text@.skip(i as int).skip(19) =~= text@.skip(i + 19));
            }
            i = i + 19;
        } else if crate::text::has_prefix(rem, "<span class=\"Isus\">") {
            out.append("\x1b[31m");
            proof {
                assert(text@.skip(i as int).skip(19) =~= text@.skip(i + 19));
            }
            i = i + 19;
        } else if crate::text::has_prefix(rem, "</span>") {
            out.append("\x1b[0m");
            proof {
                assert(text@.skip(i as int).skip(7) =~= text@.skip(i + 7));
            }
            i = i + 7;
        } else {
            let c = text.get_char(i);
            push_char(&mut out, c);
            proof {
                assert(text@.skip(i as int)[0] == text@[i as int]);
                assert(text@.skip(i as int).skip(1) =~= text@.skip(i + 1));
            }
            i = i + 1;
        }
    }
    proof {
        assert(text@.skip(n as int) =~= Seq::<char>::empty());
    }
    out
}

} // verus!
