//! Money as text: paise written as rupees with Indian digit grouping.

use vstd::prelude::*;
use crate::text::push_char;

verus! {

/// The rupee sign.
pub const RUPEE_SIGN: char = '\u{20b9}';

/// The character of a decimal digit.
pub open spec fn digit_char(d: nat) -> char {
    ((d % 10) + 48) as char
}

/// The decimal digits of `n`, most significant first, no leading zeros.
pub open spec fn digits_of(n: nat) -> Seq<char>
    decreases n,
{
    if n < 10 {
        seq![digit_char(n)]
    } else {
        digits_of(n / 10).push(digit_char(n % 10))
    }
}

/// `n` in decimal, with a leading `-` when negative.
pub open spec fn decimal(n: int) -> Seq<char> {
    if n < 0 {
        seq!['-'] + digits_of((-n) as nat)
    } else {
        digits_of(n as nat)
    }
}

/// Quotient rounded toward zero, as integer division in Rust.
pub open spec fn trunc_div(a: int, b: int) -> int {
    if a >= 0 {
        a / b
    } else {
        -((-a) / b)
    }
}

/// Remainder with the sign of the dividend, as `%` in Rust.
pub open spec fn trunc_rem(a: int, b: int) -> int {
    a - b * trunc_div(a, b)
}

/// The first `k` characters of `head`, with a comma before every character
/// that leaves an even, non-zero count behind it (lakh and crore groups).
pub open spec fn grouped_head(head: Seq<char>, k: int) -> Seq<char>
    decreases k,
{
    if k <= 0 {
        Seq::empty()
    } else {
        let i = k - 1;
        let sep = if i > 0 && (head.len() - i) % 2 == 0 {
            seq![',']
        } else {
            Seq::empty()
        };
        grouped_head(head, i) + sep + seq![head[i]]
    }
}

/// Indian digit grouping: the last three characters, then groups of two.
pub open spec fn indian_grouping(d: Seq<char>) -> Seq<char> {
    if d.len() <= 3 {
        d
    } else {
        let h = d.len() - 3;
        grouped_head(d.take(h), h) + seq![','] + d.skip(h)
    }
}

/// The paise part: nothing when zero, otherwise `.` and the remainder
/// formatted at least two wide (`05`, `45`, or `-5` for negative amounts).
pub open spec fn paise_part(p: int) -> Seq<char> {
    if p == 0 {
        Seq::empty()
    } else if 0 < p < 10 {
        seq!['.', '0', digit_char(p as nat)]
    } else if p >= 10 {
        seq!['.'] + digits_of(p as nat)
    } else {
        seq!['.', '-'] + digits_of((-p) as nat)
    }
}

/// Paise as text: "₹1,234.50" (Indian digit grouping).
pub open spec fn rupees_text(paise: int) -> Seq<char> {
    seq![RUPEE_SIGN] + indian_grouping(decimal(trunc_div(paise, 100))) + paise_part(
        trunc_rem(paise, 100),
    )
}

fn digit(d: u64) -> (c: char)
    requires
        d < 10,
    ensures
        c == digit_char(d as nat),
{
    let b: u8 = (d as u8) + 48;
    b as char
}

/// Appends the decimal digits of `n`.
fn push_digits(n: u64, out: &mut Vec<char>)
    ensures
        final(out)@ == old(out)@ + digits_of(n as nat),
    decreases n,
{
    if n >= 10 {
        push_digits(n / 10, out);
    }
    out.push(digit(n % 10));
    proof {
        if n >= 10 {
            assert(old(out)@ + digits_of(n as nat) =~= old(out)@ + digits_of((n / 10) as nat)
                + seq![digit_char((n % 10) as nat)]);
        } else {
            assert(old(out)@ + digits_of(n as nat) =~= old(out)@ + seq![digit_char(n as nat)]);
        }
    }
}

/// `n` in decimal.
pub fn decimal_chars(n: i64) -> (v: Vec<char>)
    ensures
        v@ == decimal(n as int),
{
    let mut v: Vec<char> = Vec::new();
    if n < 0 {
        v.push('-');
        let m: u64 = (-(n as i128)) as u64;
        push_digits(m, &mut v);
    } else {
        push_digits(n as u64, &mut v);
    }
    v
}

/// Appends `digits` with Indian digit grouping.
fn push_grouped(digits: &Vec<char>, s: &mut String)
    ensures
        final(s)@ == old(s)@ + indian_grouping(digits@),
{
    let len = digits.len();
    let ghost start = s@;
    if len <= 3 {
        let mut i: usize = 0;
        while i < len
            invariant
                i <= len,
                len == digits@.len(),
                s@ == start + digits@.take(i as int),
            decreases len - i,
        {
            push_char(s, digits[i]);
            assert(digits@.take(i as int + 1) =~= digits@.take(i as int).push(digits@[i as int]));
            i = i + 1;
        }
        assert(digits@.take(len as int) =~= digits@);
    } else {
        let h = len - 3;
        let ghost head = digits@.take(h as int);
        let mut i: usize = 0;
        while i < h
            invariant
                i <= h,
                h == len - 3,
                len == digits@.len(),
                head == digits@.take(h as int),
                s@ == start + grouped_head(head, i as int),
            decreases h - i,
        {
            if i > 0 && (h - i) % 2 == 0 {
                push_char(s, ',');
            }
            push_char(s, digits[i]);
            assert(head[i as int] == digits@[i as int]);
            assert(s@ =~= start + grouped_head(head, i as int + 1));
            i = i + 1;
        }
        push_char(s, ',');
        let mut j: usize = h;
        while j < len
            invariant
                h <= j <= len,
                h == len - 3,
                len == digits@.len(),
                head == digits@.take(h as int),
                s@ == start + grouped_head(head, h as int) + seq![','] + digits@.subrange(
                    h as int,
                    j as int,
                ),
            decreases len - j,
        {
            push_char(s, digits[j]);
            assert(digits@.subrange(h as int, j as int + 1) =~= digits@.subrange(h as int, j as int).push(
                digits@[j as int],
            ));
            assert(s@ =~= start + grouped_head(head, h as int) + seq![','] + digits@.subrange(h as int, j as int + 1));
            j = j + 1;
        }
        assert(digits@.subrange(h as int, len as int) =~= digits@.skip(h as int));
        assert(s@ =~= start + indian_grouping(digits@));
    }
}

/// Appends the paise part for a remainder of magnitude `mag` and sign `neg`.
fn push_paise_part(mag: u64, neg: bool, s: &mut String)
    requires
        mag < 100,
    ensures
        final(s)@ == old(s)@ + paise_part(if neg { -(mag as int) } else { mag as int }),
{
    let ghost start = s@;
    if mag != 0 {
        push_char(s, '.');
        if neg {
            push_char(s, '-');
        }
        if mag < 10 {
            if !neg {
                push_char(s, '0');
            }
            push_char(s, digit(mag));
            assert(digits_of(mag as nat) =~= seq![digit_char(mag as nat)]);
        } else {
            push_char(s, digit(mag / 10));
            push_char(s, digit(mag % 10));
            assert(digits_of((mag / 10) as nat) =~= seq![digit_char((mag / 10) as nat)]);
            assert(digits_of(mag as nat) =~= seq![digit_char((mag / 10) as nat), digit_char((mag % 10) as nat)]);
        }
    }
    assert(s@ =~= start + paise_part(if neg { -(mag as int) } else { mag as int }));
}

/// Paise to "₹1,234.50" (Indian digit grouping).
pub fn rupees(paise: i64) -> (s: String)
    ensures
        s@ == rupees_text(paise as int),
{
    let neg = paise < 0;
    let mag: u64 = if neg {
        (-(paise as i128)) as u64
    } else {
        paise as u64
    };
    let whole_mag: u64 = mag / 100;
    let cents_mag: u64 = mag % 100;
    let whole: i64 = if neg {
        -(whole_mag as i64)
    } else {
        whole_mag as i64
    };
    assert(whole == trunc_div(paise as int, 100));
    assert((if neg { -(cents_mag as int) } else { cents_mag as int }) == trunc_rem(paise as int, 100));
    let digits = decimal_chars(whole);
    let mut s = String::new();
    push_char(&mut s, RUPEE_SIGN);
    push_grouped(&digits, &mut s);
    push_paise_part(cents_mag, neg, &mut s);
    assert(s@ =~= rupees_text(paise as int));
    s
}

} // verus!
