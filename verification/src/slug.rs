//! URL slugs from free text.

use vstd::prelude::*;
use crate::text::{is_alnum, is_ascii_alnum, is_ascii_digit, is_ascii_lower, lower, string_of_chars, to_ascii_lower};

verus! {

/// Longest slug kept, in characters.
pub const MAX_SLUG_CHARS: usize = 120;

/// Appends a separator unless the output is empty or already ends with one.
pub open spec fn separate(out: Seq<char>) -> Seq<char> {
    if out.len() > 0 && out.last() != '-' {
        out.push('-')
    } else {
        out
    }
}

/// One input character: letters and digits are kept (lower-cased), anything
/// else becomes a single separator.
pub open spec fn slug_step(out: Seq<char>, c: char) -> Seq<char> {
    if is_ascii_alnum(c) {
        out.push(to_ascii_lower(c))
    } else {
        separate(out)
    }
}

/// `out` after the characters of `cs`, in order.
pub open spec fn slug_chars(out: Seq<char>, cs: Seq<char>) -> Seq<char>
    decreases cs.len(),
{
    if cs.len() == 0 {
        out
    } else {
        slug_step(slug_chars(out, cs.drop_last()), cs.last())
    }
}

/// The words of all parts, lower-cased and joined by single `-`, before any
/// trimming: every part ends with a separator.
pub open spec fn slug_raw(parts: Seq<Seq<char>>) -> Seq<char>
    decreases parts.len(),
{
    if parts.len() == 0 {
        Seq::empty()
    } else {
        separate(slug_chars(slug_raw(parts.drop_last()), parts.last()))
    }
}

/// `s` without its trailing `-` characters.
pub open spec fn strip_dashes(s: Seq<char>) -> Seq<char>
    decreases s.len(),
{
    if s.len() > 0 && s.last() == '-' {
        strip_dashes(s.drop_last())
    } else {
        s
    }
}

/// The first `n` characters of `s` (all of it if shorter).
pub open spec fn prefix(s: Seq<char>, n: int) -> Seq<char> {
    if s.len() <= n {
        s
    } else {
        s.take(n)
    }
}

/// The slug of `parts`: their ASCII words, lower-cased, joined by `-`,
/// cut to 120 characters, with no trailing `-`.
pub open spec fn slug_of(parts: Seq<Seq<char>>) -> Seq<char> {
    strip_dashes(prefix(strip_dashes(slug_raw(parts)), MAX_SLUG_CHARS as int))
}

/// A well-formed slug: lower-case ASCII letters, digits and single `-`
/// between them, never at either end.
pub open spec fn is_slug(s: Seq<char>) -> bool {
    &&& forall|i: int| 0 <= i < s.len() ==> is_slug_char(#[trigger] s[i])
    &&& s.len() > 0 ==> s[0] != '-' && s.last() != '-'
    &&& forall|i: int| 0 <= i < s.len() - 1 ==> !(#[trigger] s[i] == '-' && s[i + 1] == '-')
}

pub open spec fn is_slug_char(c: char) -> bool {
    is_ascii_digit(c) || is_ascii_lower(c) || c == '-'
}

/// What holds of the output while it is being built: slug characters, no
/// leading `-`, no `--`.
pub open spec fn building(s: Seq<char>) -> bool {
    &&& forall|i: int| 0 <= i < s.len() ==> is_slug_char(#[trigger] s[i])
    &&& s.len() > 0 ==> s[0] != '-'
    &&& forall|i: int| 0 <= i < s.len() - 1 ==> !(#[trigger] s[i] == '-' && s[i + 1] == '-')
}

proof fn lemma_step_building(out: Seq<char>, c: char)
    requires
        building(out),
    ensures
        building(slug_step(out, c)),
        building(separate(out)),
{
    let s = slug_step(out, c);
    assert forall|i: int| 0 <= i < s.len() - 1 implies !(#[trigger] s[i] == '-' && s[i + 1] == '-') by {
        if i < out.len() - 1 {
            assert(s[i] == out[i] && s[i + 1] == out[i + 1]);
        }
    }
    let t = separate(out);
    assert forall|i: int| 0 <= i < t.len() - 1 implies !(#[trigger] t[i] == '-' && t[i + 1] == '-') by {
        if i < out.len() - 1 {
            assert(t[i] == out[i] && t[i + 1] == out[i + 1]);
        }
    }
}

proof fn lemma_chars_building(out: Seq<char>, cs: Seq<char>)
    requires
        building(out),
    ensures
        building(slug_chars(out, cs)),
    decreases cs.len(),
{
    if cs.len() > 0 {
        lemma_chars_building(out, cs.drop_last());
        lemma_step_building(slug_chars(out, cs.drop_last()), cs.last());
    }
}

proof fn lemma_raw_building(parts: Seq<Seq<char>>)
    ensures
        building(slug_raw(parts)),
    decreases parts.len(),
{
    if parts.len() > 0 {
        lemma_raw_building(parts.drop_last());
        lemma_chars_building(slug_raw(parts.drop_last()), parts.last());
        lemma_step_building(slug_chars(slug_raw(parts.drop_last()), parts.last()), ' ');
    }
}

proof fn lemma_prefix_building(s: Seq<char>, n: int)
    requires
        building(s),
        n >= 0,
    ensures
        building(prefix(s, n)),
        prefix(s, n).len() <= n,
{
    let p = prefix(s, n);
    assert forall|i: int| 0 <= i < p.len() implies is_slug_char(#[trigger] p[i]) by {
        assert(p[i] == s[i]);
    }
    assert forall|i: int| 0 <= i < p.len() - 1 implies !(#[trigger] p[i] == '-' && p[i + 1] == '-') by {
        assert(p[i] == s[i] && p[i + 1] == s[i + 1]);
    }
}

proof fn lemma_strip_slug(s: Seq<char>)
    requires
        building(s),
    ensures
        is_slug(strip_dashes(s)),
        strip_dashes(s).len() <= s.len(),
    decreases s.len(),
{
    if s.len() > 0 && s.last() == '-' {
        let t = s.drop_last();
        assert forall|i: int| 0 <= i < t.len() implies is_slug_char(#[trigger] t[i]) by {
            assert(t[i] == s[i]);
        }
        assert forall|i: int| 0 <= i < t.len() - 1 implies !(#[trigger] t[i] == '-' && t[i + 1] == '-') by {
            assert(t[i] == s[i] && t[i + 1] == s[i + 1]);
        }
        lemma_strip_slug(t);
    }
}

proof fn lemma_strip_dashes_building(s: Seq<char>)
    requires
        building(s),
    ensures
        building(strip_dashes(s)),
{
    lemma_strip_slug(s);
}

/// Every slug is well formed and at most 120 characters long.
pub proof fn lemma_slug_well_formed(parts: Seq<Seq<char>>)
    ensures
        is_slug(slug_of(parts)),
        slug_of(parts).len() <= MAX_SLUG_CHARS,
{
    lemma_raw_building(parts);
    lemma_strip_dashes_building(slug_raw(parts));
    lemma_prefix_building(strip_dashes(slug_raw(parts)), MAX_SLUG_CHARS as int);
    lemma_strip_slug(prefix(strip_dashes(slug_raw(parts)), MAX_SLUG_CHARS as int));
}

proof fn lemma_slug_chars_concat(out: Seq<char>, x: Seq<char>, y: Seq<char>)
    ensures
        slug_chars(out, x + y) == slug_chars(slug_chars(out, x), y),
    decreases y.len(),
{
    if y.len() == 0 {
        assert(x + y =~= x);
    } else {
        lemma_slug_chars_concat(out, x, y.drop_last());
        assert((x + y).drop_last() =~= x + y.drop_last());
        assert((x + y).last() == y.last());
    }
}

/// Consecutive parts act as words separated by a space: the slug of
/// `..., a, b` is the slug of `..., "{a} {b}"`.
pub proof fn lemma_slug_parts_are_words(parts: Seq<Seq<char>>, a: Seq<char>, b: Seq<char>)
    ensures
        slug_of(parts.push(a).push(b)) == slug_of(parts.push(a + seq![' '] + b)),
{
    let r = slug_raw(parts);
    assert(parts.push(a).push(b).drop_last() =~= parts.push(a));
    assert(parts.push(a).drop_last() =~= parts);
    assert(parts.push(a + seq![' '] + b).drop_last() =~= parts);
    lemma_slug_chars_concat(r, a + seq![' '], b);
    lemma_slug_chars_concat(r, a, seq![' ']);
    let x = slug_chars(r, a);
    assert(seq![' '].drop_last() =~= Seq::<char>::empty());
    assert(seq![' '].last() == ' ');
    assert(slug_chars(x, Seq::<char>::empty()) == x);
    assert(!is_ascii_alnum(' '));
    assert(slug_chars(x, seq![' ']) == separate(x));
    assert(parts.push(a).push(b).last() == b);
    assert(parts.push(a).last() == a);
    assert(parts.push(a + seq![' '] + b).last() == a + seq![' '] + b);
    assert(slug_raw(parts.push(a)) == separate(x));
    assert(slug_raw(parts.push(a).push(b)) == separate(slug_chars(separate(x), b)));
    assert(slug_chars(r, a + seq![' ']) == separate(x));
    assert(slug_raw(parts.push(a + seq![' '] + b)) == separate(slug_chars(r, a + seq![' '] + b)));
    assert(slug_raw(parts.push(a).push(b)) == slug_raw(parts.push(a + seq![' '] + b)));
}

proof fn lemma_slug_chars_of_slug(s: Seq<char>)
    requires
        building(s),
    ensures
        slug_chars(Seq::empty(), s) == s,
    decreases s.len(),
{
    if s.len() > 0 {
        let t = s.drop_last();
        assert(building(t)) by {
            assert forall|i: int| 0 <= i < t.len() - 1 implies !(#[trigger] t[i] == '-' && t[i + 1] == '-') by {
                assert(s[i] == t[i] && s[i + 1] == t[i + 1]);
            }
        }
        lemma_slug_chars_of_slug(t);
        let c = s.last();
        assert(is_slug_char(s[s.len() - 1]));
        if c == '-' {
            assert(s.len() > 1);
            assert(!(s[s.len() - 2] == '-' && s[s.len() - 1] == '-'));
            assert(t.last() != '-');
            assert(t.push('-') =~= s);
        } else {
            assert(to_ascii_lower(c) == c);
            assert(t.push(c) =~= s);
        }
    }
}

/// A slug is its own slug: slugging the slug of `parts` gives it back.
pub proof fn lemma_slug_fixed_point(parts: Seq<Seq<char>>)
    ensures
        slug_of(seq![slug_of(parts)]) == slug_of(parts),
{
    let s = slug_of(parts);
    lemma_slug_well_formed(parts);
    lemma_slug_chars_of_slug(s);
    assert(seq![s].drop_last() =~= Seq::<Seq<char>>::empty());
    assert(seq![s].last() == s);
    assert(slug_raw(Seq::<Seq<char>>::empty()) == Seq::<char>::empty());
    assert(slug_raw(seq![s]) == separate(s));
    if s.len() > 0 {
        assert(separate(s) == s.push('-'));
        assert(s.push('-').drop_last() =~= s);
        assert(strip_dashes(s.push('-')) == strip_dashes(s));
    }
    assert(strip_dashes(s) == s);
    assert(prefix(s, MAX_SLUG_CHARS as int) == s);
}

/// The parts of a slug as character sequences.
pub open spec fn parts_view(parts: Seq<&str>) -> Seq<Seq<char>> {
    parts.map_values(|p: &str| p@)
}

fn push_separator(out: &mut Vec<char>)
    ensures
        final(out)@ == separate(old(out)@),
{
    let n = out.len();
    if n > 0 && out[n - 1] != '-' {
        out.push('-');
    }
}

fn strip_trailing_dashes(out: &mut Vec<char>)
    ensures
        final(out)@ == strip_dashes(old(out)@),
{
    while out.len() > 0 && out[out.len() - 1] == '-'
        invariant
            strip_dashes(out@) == strip_dashes(old(out)@),
        decreases out.len(),
    {
        out.pop();
    }
}

/// URL slug from free text: "Amul Taaza Milk (500 ml)" -> "amul-taaza-milk-500-ml".
/// Non-ASCII letters are dropped (Hindi names should set an explicit slug).
pub fn slugify(parts: &[&str]) -> (slug: String)
    ensures
        slug@ == slug_of(parts_view(parts@)),
        is_slug(slug@),
        slug@.len() <= MAX_SLUG_CHARS,
{
    let ghost ps = parts_view(parts@);
    let mut out: Vec<char> = Vec::new();
    let mut k: usize = 0;
    while k < parts.len()
        invariant
            k <= parts.len(),
            ps == parts_view(parts@),
            out@ == slug_raw(ps.take(k as int)),
        decreases parts.len() - k,
    {
        let part: &str = parts[k];
        let ghost before = out@;
        for ch in it: part.chars()
            invariant
                it.seq() == part@,
                out@ == slug_chars(before, it.seq().take(it.index() as int)),
        {
            assert(it.seq().take(it.index() as int + 1).drop_last() =~= it.seq().take(it.index() as int));
            if is_alnum(ch) {
                out.push(lower(ch));
            } else {
                push_separator(&mut out);
            }
        }
        assert(part@.take(part@.len() as int) =~= part@);
        push_separator(&mut out);
        assert(ps.take(k as int + 1).drop_last() =~= ps.take(k as int));
        assert(ps.take(k as int + 1).last() == part@);
        k = k + 1;
    }
    assert(ps.take(parts.len() as int) =~= ps);
    strip_trailing_dashes(&mut out);
    if out.len() > MAX_SLUG_CHARS {
        out.truncate(MAX_SLUG_CHARS);
    }
    strip_trailing_dashes(&mut out);
    proof {
        lemma_slug_well_formed(ps);
    }
    string_of_chars(&out)
}

} // verus!
