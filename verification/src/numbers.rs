//! Lenient decimal parsing (a malformed number yields 0, never an error)
//! and decimal rendering for chapter and verse numbers.

use vstd::prelude::*;

verus! {

pub open spec fn is_digit_char(c: char) -> bool {
    '0' <= c && c <= '9'
}

pub open spec fn digit_val(c: char) -> int {
    c as u32 - '0' as u32
}

pub open spec fn all_digits(s: Seq<char>) -> bool {
    forall|i: int| 0 <= i < s.len() ==> is_digit_char(s[i])
}

/// The number written by a digit string, most significant digit first.
pub open spec fn digits_val(s: Seq<char>) -> int
    decreases s.len(),
{
    if s.len() == 0 {
        0
    } else {
        digits_val(s.drop_last()) * 10 + digit_val(s.last())
    }
}

/// What `parse` yields on this text: an optional sign, then digits,
/// valued if the result fits an `i32`; anything else (empty, stray
/// characters, overflow) yields 0.
pub open spec fn parse_i32_spec(s: Seq<char>) -> i32 {
    let neg = s.len() > 0 && s[0] == '-';
    let signed = s.len() > 0 && (s[0] == '-' || s[0] == '+');
    let ds = if signed {
        s.skip(1)
    } else {
        s
    };
    if ds.len() > 0 && all_digits(ds) {
        let m = digits_val(ds);
        if neg {
            if -m >= i32::MIN as int {
                (-m) as i32
            } else {
                0
            }
        } else {
            if m <= i32::MAX as int {
                m as i32
            } else {
                0
            }
        }
    } else {
        0
    }
}

proof fn lemma_digits_val_nonneg(s: Seq<char>)
    requires
        all_digits(s),
    ensures
        digits_val(s) >= 0,
    decreases s.len(),
{
    if s.len() > 0 {
        lemma_digits_val_nonneg(s.drop_last());
    }
}

/// Parses a decimal integer the lenient way the corpus format asks for:
/// any failure (no digits, stray characters, overflow) yields 0.
pub fn parse_i32(s: &str) -> (v: i32)
    ensures
        v == parse_i32_spec(s@),
{
    let n = s.unicode_len();
    let mut neg = false;
    let mut start: usize = 0;
    if n > 0 {
        let c0 = s.get_char(0);
        if c0 == '-' {
            neg = true;
            start = 1;
        } else if c0 == '+' {
            start = 1;
        }
    }
    let ghost ds = if start == 1 {
        s@.skip(1)
    } else {
        s@
    };
    if start >= n {
        // no digits at all
        return 0;
    }
    let mut acc: u64 = 0;
    let mut ovf = false;
    let mut i: usize = start;
    proof {
        assert(s@.subrange(0, n as int) =~= s@);
        if n > 0 {
            assert(s@.subrange(1, n as int) =~= s@.skip(1));
        }
    }
    while i < n
        invariant
            n == s@.len(),
            start <= i <= n,
            start <= 1,
            neg == (s@.len() > 0 && s@[0] == '-'),
            (start == 1) == (s@.len() > 0 && (s@[0] == '-' || s@[0] == '+')),
            ds == s@.subrange(start as int, n as int),
            ds == (if s@.len() > 0 && (s@[0] == '-' || s@[0] == '+') {
                s@.skip(1)
            } else {
                s@
            }),
            all_digits(s@.subrange(start as int, i as int)),
            !ovf ==> acc <= 2147483648u64 && acc as int == digits_val(
                s@.subrange(start as int, i as int),
            ),
            ovf ==> digits_val(s@.subrange(start as int, i as int)) > 2147483648,
        decreases n - i,
    {
        let c = s.get_char(i);
        if !('0' <= c && c <= '9') {
            proof {
                assert(ds[i - start] == s@[i as int]);
                assert(!all_digits(ds));
            }
            return 0;
        }
        let d: u64 = ((c as u8) - 48) as u64;
        proof {
            let pre = s@.subrange(start as int, i as int);
            let cur = s@.subrange(start as int, i + 1);
            assert(cur.drop_last() =~= pre);
            assert(cur.last() == s@[i as int]);
            assert(digits_val(cur) == digits_val(pre) * 10 + digit_val(s@[i as int]));
            if ovf {
                lemma_digits_val_nonneg(pre);
            }
        }
        if !ovf {
            let w: u64 = acc * 10 + d;
            if w > 2147483648 {
                ovf = true;
            } else {
                acc = w;
            }
        }
        i = i + 1;
    }
    proof {
        assert(s@.subrange(start as int, n as int) =~= ds);
    }
    if ovf {
        return 0;
    }
    if neg {
        if acc == 2147483648 {
            i32::MIN
        } else {
            -(acc as i32)
        }
    } else {
        if acc == 2147483648 {
            0
        } else {
            acc as i32
        }
    }
}

pub open spec fn dec_digit_char(d: int) -> char {
    if d == 0 {
        '0'
    } else if d == 1 {
        '1'
    } else if d == 2 {
        '2'
    } else if d == 3 {
        '3'
    } else if d == 4 {
        '4'
    } else if d == 5 {
        '5'
    } else if d == 6 {
        '6'
    } else if d == 7 {
        '7'
    } else if d == 8 {
        '8'
    } else {
        '9'
    }
}

/// The decimal rendering of a nonnegative number, most significant
/// digit first, with no leading zeros (except for 0 itself).
pub open spec fn dec_nat(n: nat) -> Seq<char>
    decreases n,
{
    if n < 10 {
        seq![dec_digit_char(n as int)]
    } else {
        dec_nat(n / 10) + seq![dec_digit_char((n % 10) as int)]
    }
}

/// The decimal rendering of a signed number.
pub open spec fn dec_i32(v: int) -> Seq<char> {
    if v < 0 {
        seq!['-'] + dec_nat((-v) as nat)
    } else {
        dec_nat(v as nat)
    }
}

fn dec_digit_exec(d: u32) -> (c: char)
    requires
        d < 10,
    ensures
        c == dec_digit_char(d as int),
{
    if d == 0 {
        '0'
    } else if d == 1 {
        '1'
    } else if d == 2 {
        '2'
    } else if d == 3 {
        '3'
    } else if d == 4 {
        '4'
    } else if d == 5 {
        '5'
    } else if d == 6 {
        '6'
    } else if d == 7 {
        '7'
    } else if d == 8 {
        '8'
    } else {
        '9'
    }
}

fn push_dec_u32(out: &mut String, n: u32)
    ensures
        final(out)@ == old(out)@ + dec_nat(n as nat),
    decreases n,
{
    if n < 10 {
        crate::text::push_char(out, dec_digit_exec(n));
    } else {
        push_dec_u32(out, n / 10);
        let d = dec_digit_exec(n % 10);
        crate::text::push_char(out, d);
        proof {
            assert(out@ =~= old(out)@ + dec_nat(n as nat));
        }
    }
}

/// Appends the decimal rendering of `v` to `out`.
pub fn push_dec_i32(out: &mut String, v: i32)
    ensures
        final(out)@ == old(out)@ + dec_i32(v as int),
{
    if v < 0 {
        crate::text::push_char(out, '-');
        let m: u32 = (-(v as i64)) as u32;
        push_dec_u32(out, m);
        proof {
            assert(out@ =~= old(out)@ + dec_i32(v as int));
        }
    } else {
        push_dec_u32(out, v as u32);
    }
}

} // verus!
