//! Character-level text helpers: search normalization (Unicode
//! lowercasing, then the in-scope diacritic fold), the
//! ASCII-case-insensitive comparison used for book names, substring
//! search, and line trimming.

use vstd::prelude::*;

verus! {

/// Lowers an ASCII capital letter; leaves every other character alone.
pub open spec fn ascii_lower(c: char) -> char {
    if 'A' <= c && c <= 'Z' {
        (((c as u8) + 32) as char)
    } else {
        c
    }
}

/// The Unicode lowercase form of one character: the first scalar of
/// its lowercase mapping, the character itself where the mapping is
/// empty. Named here; the trusted wrapper below ties it to
/// `char::to_lowercase`.
pub uninterp spec fn lower_of(c: char) -> char;

/// What the documentation of `char::to_lowercase` gives of that
/// mapping, and all the proofs here lean on: lowering twice is
/// lowering once (a lowercase character has no further lowercase
/// form), ASCII lowers within ASCII exactly as `ascii_lower` does,
/// and the accented capitals in scope lower to their paired small
/// letters.
pub open spec fn lower_of_facts() -> bool {
    &&& forall|d: char| #[trigger] lower_of(lower_of(d)) == lower_of(d)
    &&& forall|d: char| (d as u32) < 128 ==> #[trigger] lower_of(d) == ascii_lower(d)
    &&& lower_of('Ă') == 'ă'
    &&& lower_of('Â') == 'â'
    &&& lower_of('Î') == 'î'
    &&& lower_of('Ș') == 'ș'
    &&& lower_of('Ş') == 'ş'
    &&& lower_of('Ț') == 'ț'
    &&& lower_of('Ţ') == 'ţ'
}

/// What a call of the lowering wrapper establishes of its result: the
/// result is the named lowercase form, and the mapping behaves as its
/// documentation says.
pub open spec fn lowered_to(c: char, r: char) -> bool {
    r == lower_of(c) && lower_of_facts()
}

/// Relies on char::to_lowercase: the Unicode lowercase mapping of the
/// character, of which the body keeps the first scalar (the character
/// itself when the mapping yields none). The facts bundled with the
/// result are the documented shape of that mapping.
#[verifier::external_body]
pub(crate) fn to_lower_char(c: char) -> (r: char)
    ensures
        r == lower_of(c),
        lowered_to(c, r),
{
    c.to_lowercase().next().unwrap_or(c)
}

/// The diacritic fold alone: a small accented letter in scope (both
/// the comma-below and the cedilla encodings) collapses to its
/// unaccented base letter; anything else stands.
pub open spec fn fold_diacritic(d: char) -> char {
    if d == 'ă' || d == 'â' {
        'a'
    } else if d == 'î' {
        'i'
    } else if d == 'ș' || d == 'ş' {
        's'
    } else if d == 'ț' || d == 'ţ' {
        't'
    } else {
        d
    }
}

/// The search-comparable form of one character: lowercased by
/// Unicode's mapping, then the accented letters in scope collapse to
/// their unaccented base letter.
pub open spec fn norm_char(c: char) -> char {
    fold_diacritic(lower_of(c))
}

/// The search-comparable form of a whole text, character by character.
pub open spec fn norm_seq(s: Seq<char>) -> Seq<char> {
    Seq::new(s.len(), |i: int| norm_char(s[i]))
}

/// Relies on String::push: appends exactly the given character.
#[verifier::external_body]
pub(crate) fn push_char(s: &mut String, c: char)
    ensures
        final(s)@ == old(s)@ + seq![c],
{
    s.push(c);
}

fn ascii_lower_exec(c: char) -> (r: char)
    ensures
        r == ascii_lower(c),
{
    if 'A' <= c && c <= 'Z' {
        ((c as u8) + 32) as char
    } else {
        c
    }
}

fn fold_diacritic_exec(d: char) -> (r: char)
    ensures
        r == fold_diacritic(d),
{
    if d == 'ă' || d == 'â' {
        'a'
    } else if d == 'î' {
        'i'
    } else if d == 'ș' || d == 'ş' {
        's'
    } else if d == 'ț' || d == 'ţ' {
        't'
    } else {
        d
    }
}

/// Maps a text to its search-comparable form: every letter lowercased,
/// the accented letters in scope collapsed to their base letters. The
/// result is a fixed point: normalizing it again changes nothing.
pub fn normalize(s: &str) -> (r: String)
    ensures
        r@ == norm_seq(s@),
        norm_seq(r@) == r@,
{
    let n = s.unicode_len();
    let mut out = String::new();
    let mut i: usize = 0;
    while i < n
        invariant
            n == s@.len(),
            i <= n,
            out@ == norm_seq(s@.take(i as int)),
            norm_seq(out@) == out@,
        decreases n - i,
    {
        let c = s.get_char(i);
        let d = to_lower_char(c);
        let nc = fold_diacritic_exec(d);
        proof {
            assert(lower_of(lower_of(c)) == lower_of(c));
            assert(lower_of(nc) == nc);
            assert(norm_char(nc) == nc);
        }
        push_char(&mut out, nc);
        proof {
            assert(out@ =~= norm_seq(s@.take(i + 1)));
            assert(norm_seq(out@) =~= out@);
        }
        i = i + 1;
    }
    proof {
        assert(s@.take(n as int) =~= s@);
    }
    out
}

/// Line-ending whitespace: what is stripped from the tail of a raw
/// corpus line before it is classified.
pub open spec fn is_line_ws(c: char) -> bool {
    c == ' ' || c == '\t' || c == '\r' || c == '\n'
}

/// The line with its trailing whitespace (line terminator included)
/// stripped.
pub open spec fn trim_end_spec(s: Seq<char>) -> Seq<char>
    decreases s.len(),
{
    if s.len() > 0 && is_line_ws(s.last()) {
        trim_end_spec(s.drop_last())
    } else {
        s
    }
}

fn is_line_ws_exec(c: char) -> (r: bool)
    ensures
        r == is_line_ws(c),
{
    c == ' ' || c == '\t' || c == '\r' || c == '\n'
}

/// Strips trailing whitespace, the line terminator included.
pub fn trim_end<'a>(s: &'a str) -> (t: &'a str)
    ensures
        t@ == trim_end_spec(s@),
{
    let n = s.unicode_len();
    let mut j: usize = n;
    proof {
        assert(s@.take(n as int) =~= s@);
    }
    while j > 0 && is_line_ws_exec(s.get_char(j - 1))
        invariant
            n == s@.len(),
            j <= n,
            trim_end_spec(s@) == trim_end_spec(s@.take(j as int)),
        decreases j,
    {
        proof {
            assert(s@.take(j as int).drop_last() =~= s@.take(j - 1));
        }
        j = j - 1;
    }
    let t = s.substring_char(0, j);
    proof {
        assert(t@ =~= s@.take(j as int));
    }
    t
}

/// The index of the first space in the text at or after `i`, if any.
pub open spec fn first_space_from(s: Seq<char>, i: int) -> Option<int>
    decreases s.len() - i,
{
    if i < 0 || i >= s.len() {
        None
    } else if s[i] == ' ' {
        Some(i)
    } else {
        first_space_from(s, i + 1)
    }
}

/// A found first space lies in bounds and really is a space.
pub proof fn lemma_first_space_some(s: Seq<char>, i: int, k: int)
    requires
        0 <= i,
        first_space_from(s, i) == Some(k),
    ensures
        i <= k < s.len(),
        s[k] == ' ',
    decreases s.len() - i,
{
    if i < s.len() && s[i] != ' ' {
        lemma_first_space_some(s, i + 1, k);
    }
}

/// Finds the first space in the text, if any.
pub fn first_space(s: &str) -> (r: Option<usize>)
    ensures
        match r {
            Some(k) => Some(k as int) == first_space_from(s@, 0),
            None => first_space_from(s@, 0) is None,
        },
{
    let n = s.unicode_len();
    let mut i: usize = 0;
    while i < n
        invariant
            n == s@.len(),
            i <= n,
            first_space_from(s@, 0) == first_space_from(s@, i as int),
        decreases n - i,
    {
        if s.get_char(i) == ' ' {
            return Some(i);
        }
        i = i + 1;
    }
    None
}

/// Two texts are equal up to ASCII letter case.
pub open spec fn ci_eq(a: Seq<char>, b: Seq<char>) -> bool {
    a.len() == b.len() && forall|i: int| 0 <= i < a.len() ==> ascii_lower(a[i]) == ascii_lower(b[i])
}

/// Compares two texts ignoring ASCII letter case.
pub fn eq_ignore_case(a: &str, b: &str) -> (r: bool)
    ensures
        r == ci_eq(a@, b@),
{
    let na = a.unicode_len();
    let nb = b.unicode_len();
    if na != nb {
        return false;
    }
    let mut i: usize = 0;
    while i < na
        invariant
            na == a@.len(),
            na == b@.len(),
            i <= na,
            forall|j: int| 0 <= j < i ==> ascii_lower(a@[j]) == ascii_lower(b@[j]),
        decreases na - i,
    {
        let ca = ascii_lower_exec(a.get_char(i));
        let cb = ascii_lower_exec(b.get_char(i));
        if ca != cb {
            return false;
        }
        i = i + 1;
    }
    true
}

/// `needle` occurs in `hay` as a contiguous run starting at `i`.
pub open spec fn occurs_at(hay: Seq<char>, needle: Seq<char>, i: int) -> bool {
    0 <= i && i + needle.len() <= hay.len() && hay.subrange(i, i + needle.len()) == needle
}

/// `needle` occurs somewhere in `hay` as a contiguous run.
pub open spec fn contains_seq(hay: Seq<char>, needle: Seq<char>) -> bool {
    exists|i: int| occurs_at(hay, needle, i)
}

fn occurs_at_exec(hay: &str, needle: &str, i: usize) -> (r: bool)
    requires
        i + needle@.len() <= hay@.len(),
        hay@.len() <= usize::MAX,
    ensures
        r == occurs_at(hay@, needle@, i as int),
{
    let n = needle.unicode_len();
    let mut k: usize = 0;
    while k < n
        invariant
            n == needle@.len(),
            i + n <= hay@.len(),
            hay@.len() <= usize::MAX,
            k <= n,
            forall|m: int| 0 <= m < k ==> hay@[i + m] == needle@[m],
        decreases n - k,
    {
        if hay.get_char(i + k) != needle.get_char(k) {
            proof {
                assert(hay@.subrange(i as int, i + n) != needle@) by {
                    assert(hay@.subrange(i as int, i + n)[k as int] == hay@[i + k]);
                }
            }
            return false;
        }
        k = k + 1;
    }
    proof {
        assert(hay@.subrange(i as int, i + n) =~= needle@);
    }
    true
}

/// `p` is a prefix of `s`.
pub open spec fn starts_with(s: Seq<char>, p: Seq<char>) -> bool {
    p.len() <= s.len() && s.subrange(0, p.len() as int) == p
}

/// Decides whether `p` is a prefix of `s`.
pub fn has_prefix(s: &str, p: &str) -> (r: bool)
    ensures
        r == starts_with(s@, p@),
{
    let ns = s.unicode_len();
    let np = p.unicode_len();
    if np > ns {
        return false;
    }
    occurs_at_exec(s, p, 0)
}

/// Decides substring containment: does `needle` occur contiguously in
/// `hay`? An empty needle is contained in every text.
pub fn contains_sub(hay: &str, needle: &str) -> (r: bool)
    ensures
        r == contains_seq(hay@, needle@),
{
    let h = hay.unicode_len();
    let n = needle.unicode_len();
    if n > h {
        proof {
            assert(forall|i: int| !occurs_at(hay@, needle@, i));
        }
        return false;
    }
    if n == 0 {
        proof {
            assert(occurs_at(hay@, needle@, 0)) by {
                assert(hay@.subrange(0, 0) =~= needle@);
            }
        }
        return true;
    }
    let mut i: usize = 0;
    while i <= h - n
        invariant
            h == hay@.len(),
            n == needle@.len(),
            1 <= n <= h,
            i <= h - n + 1,
            forall|j: int| 0 <= j < i ==> !occurs_at(hay@, needle@, j),
        decreases h - n - i + 1,
    {
        if occurs_at_exec(hay, needle, i) {
            return true;
        }
        i = i + 1;
    }
    proof {
        assert(forall|j: int| occurs_at(hay@, needle@, j) ==> 0 <= j < i);
    }
    false
}

} // verus!
