//! Walk order through the store: bins sort naturally (A-2 before A-10) and
//! unlocated items come last.

use std::cmp::Ordering;
use vstd::prelude::*;
use crate::money::digits_of;
use crate::picking::{
    chunk_of, flush, key_scan, lemma_digits_value_of, lemma_natural_key_digit_tail, natural_key,
    natural_key_of, string_opt, Chunk, ChunkView, PickLineRow,
};
use crate::text::is_ascii_digit;
use crate::text::{chars_of, elem, skip_from, skip_past};

verus! {

/// Lexicographic order of texts by character: negative, zero or positive.
pub open spec fn text_order(a: Seq<char>, b: Seq<char>) -> int
    decreases a.len(),
{
    if a.len() == 0 && b.len() == 0 {
        0
    } else if a.len() == 0 {
        -1
    } else if b.len() == 0 {
        1
    } else if a[0] < b[0] {
        -1
    } else if b[0] < a[0] {
        1
    } else {
        text_order(a.drop_first(), b.drop_first())
    }
}

/// Numbers before letters; numbers by value, letters by text.
pub open spec fn chunk_order(a: ChunkView, b: ChunkView) -> int {
    match (a, b) {
        (ChunkView::Num(x), ChunkView::Num(y)) => if x < y {
            -1
        } else if y < x {
            1
        } else {
            0
        },
        (ChunkView::Num(_), ChunkView::Text(_)) => -1,
        (ChunkView::Text(_), ChunkView::Num(_)) => 1,
        (ChunkView::Text(x), ChunkView::Text(y)) => text_order(x, y),
    }
}

/// Lexicographic order of natural keys, chunk by chunk.
pub open spec fn key_order(a: Seq<ChunkView>, b: Seq<ChunkView>) -> int
    decreases a.len(),
{
    if a.len() == 0 && b.len() == 0 {
        0
    } else if a.len() == 0 {
        -1
    } else if b.len() == 0 {
        1
    } else if chunk_order(a[0], b[0]) != 0 {
        chunk_order(a[0], b[0])
    } else {
        key_order(a.drop_first(), b.drop_first())
    }
}

/// Where two (maybe missing) bin locations fall in the walk: located bins
/// by natural key, unlocated ones after all located ones.
pub open spec fn walk_order(a: Option<Seq<char>>, b: Option<Seq<char>>) -> int {
    match (a, b) {
        (Some(x), Some(y)) => key_order(natural_key_of(x), natural_key_of(y)),
        (Some(_), None) => -1,
        (None, Some(_)) => 1,
        (None, None) => 0,
    }
}

/// The sign of an ordering.
pub open spec fn ordering_sign(o: Ordering) -> int {
    match o {
        Ordering::Less => -1,
        Ordering::Equal => 0,
        Ordering::Greater => 1,
    }
}

proof fn lemma_text_order_range(a: Seq<char>, b: Seq<char>)
    ensures
        -1 <= text_order(a, b) <= 1,
        text_order(a, b) == -text_order(b, a),
        text_order(a, b) == 0 ==> a =~= b,
    decreases a.len(),
{
    if a.len() > 0 && b.len() > 0 && a[0] == b[0] {
        lemma_text_order_range(a.drop_first(), b.drop_first());
        if text_order(a, b) == 0 {
            assert(a =~= seq![a[0]] + a.drop_first());
            assert(b =~= seq![b[0]] + b.drop_first());
        }
    }
}

proof fn lemma_text_order_trans(a: Seq<char>, b: Seq<char>, c: Seq<char>)
    requires
        text_order(a, b) <= 0,
        text_order(b, c) <= 0,
    ensures
        text_order(a, c) <= 0,
    decreases a.len(),
{
    if a.len() > 0 && b.len() > 0 && c.len() > 0 && a[0] == b[0] && b[0] == c[0] {
        lemma_text_order_trans(a.drop_first(), b.drop_first(), c.drop_first());
    }
}

proof fn lemma_chunk_order(a: ChunkView, b: ChunkView)
    ensures
        -1 <= chunk_order(a, b) <= 1,
        chunk_order(a, b) == -chunk_order(b, a),
        chunk_order(a, b) == 0 ==> a == b,
{
    match (a, b) {
        (ChunkView::Text(x), ChunkView::Text(y)) => lemma_text_order_range(x, y),
        _ => {},
    }
}

proof fn lemma_chunk_order_trans(a: ChunkView, b: ChunkView, c: ChunkView)
    requires
        chunk_order(a, b) <= 0,
        chunk_order(b, c) <= 0,
    ensures
        chunk_order(a, c) <= 0,
        chunk_order(a, b) < 0 || chunk_order(b, c) < 0 ==> chunk_order(a, c) < 0,
{
    match (a, b, c) {
        (ChunkView::Text(x), ChunkView::Text(y), ChunkView::Text(z)) => {
            lemma_text_order_trans(x, y, z);
            lemma_text_order_range(x, y);
            lemma_text_order_range(y, z);
            lemma_text_order_range(x, z);
            if text_order(x, z) == 0 {
                assert(x =~= z);
                lemma_text_order_trans(y, z, x);
            }
        },
        _ => {},
    }
}

/// Natural keys are totally ordered: swapping the arguments flips the sign,
/// and only equal keys compare equal.
pub proof fn lemma_key_order_antisymmetric(a: Seq<ChunkView>, b: Seq<ChunkView>)
    ensures
        -1 <= key_order(a, b) <= 1,
        key_order(a, b) == -key_order(b, a),
        key_order(a, b) == 0 ==> a =~= b,
    decreases a.len(),
{
    if a.len() > 0 && b.len() > 0 {
        lemma_chunk_order(a[0], b[0]);
        if chunk_order(a[0], b[0]) == 0 {
            lemma_key_order_antisymmetric(a.drop_first(), b.drop_first());
            if key_order(a, b) == 0 {
                assert(a =~= seq![a[0]] + a.drop_first());
                assert(b =~= seq![b[0]] + b.drop_first());
            }
        }
    }
}

/// Natural-key order is transitive.
pub proof fn lemma_key_order_transitive(a: Seq<ChunkView>, b: Seq<ChunkView>, c: Seq<ChunkView>)
    requires
        key_order(a, b) <= 0,
        key_order(b, c) <= 0,
    ensures
        key_order(a, c) <= 0,
    decreases a.len(),
{
    if a.len() > 0 && b.len() > 0 && c.len() > 0 {
        lemma_chunk_order(a[0], b[0]);
        lemma_chunk_order(b[0], c[0]);
        lemma_chunk_order(a[0], c[0]);
        if chunk_order(a[0], b[0]) <= 0 && chunk_order(b[0], c[0]) <= 0 {
            lemma_chunk_order_trans(a[0], b[0], c[0]);
        }
        if chunk_order(a[0], b[0]) == 0 && chunk_order(b[0], c[0]) == 0 {
            lemma_key_order_transitive(a.drop_first(), b.drop_first(), c.drop_first());
        }
    }
}

/// The walk order is a total order on bin locations: antisymmetric,
/// transitive, and equal only for bins with the same natural key; a bin
/// always comes before no bin.
pub proof fn lemma_walk_order_total(a: Option<Seq<char>>, b: Option<Seq<char>>, c: Option<Seq<char>>)
    ensures
        walk_order(a, b) == -walk_order(b, a),
        walk_order(a, b) <= 0 && walk_order(b, c) <= 0 ==> walk_order(a, c) <= 0,
        a is Some && b is None ==> walk_order(a, b) < 0,
{
    match (a, b) {
        (Some(x), Some(y)) => lemma_key_order_antisymmetric(natural_key_of(x), natural_key_of(y)),
        _ => {},
    }
    if walk_order(a, b) <= 0 && walk_order(b, c) <= 0 {
        match (a, b, c) {
            (Some(x), Some(y), Some(z)) => lemma_key_order_transitive(
                natural_key_of(x),
                natural_key_of(y),
                natural_key_of(z),
            ),
            _ => {},
        }
    }
}

fn compare_text(a: &String, b: &String) -> (o: Ordering)
    ensures
        ordering_sign(o) == text_order(a@, b@),
{
    let x = chars_of(a.as_str());
    let y = chars_of(b.as_str());
    let mut i: usize = 0;
    assert(skip_from(x@, i) =~= x@);
    assert(skip_from(y@, i) =~= y@);
    while i < x.len() && i < y.len()
        invariant
            i <= x@.len(),
            i <= y@.len(),
            x@ == a@,
            y@ == b@,
            text_order(a@, b@) == text_order(skip_from(x@, i), skip_from(y@, i)),
        decreases x.len() - i,
    {
        assert(skip_from(x@, i)[0] == elem(x@, i));
        assert(skip_from(y@, i)[0] == elem(y@, i));
        if x[i] < y[i] {
            return Ordering::Less;
        }
        if y[i] < x[i] {
            return Ordering::Greater;
        }
        assert(skip_from(x@, i).drop_first() =~= skip_past(x@, i));
        assert(skip_from(y@, i).drop_first() =~= skip_past(y@, i));
        i = i + 1;
    }
    if i < x.len() {
        Ordering::Greater
    } else if i < y.len() {
        Ordering::Less
    } else {
        Ordering::Equal
    }
}

fn compare_chunk(a: &Chunk, b: &Chunk) -> (o: Ordering)
    ensures
        ordering_sign(o) == chunk_order(a@, b@),
{
    match (a, b) {
        (Chunk::Num(x), Chunk::Num(y)) => if *x < *y {
            Ordering::Less
        } else if *y < *x {
            Ordering::Greater
        } else {
            Ordering::Equal
        },
        (Chunk::Num(_), Chunk::Text(_)) => Ordering::Less,
        (Chunk::Text(_), Chunk::Num(_)) => Ordering::Greater,
        (Chunk::Text(x), Chunk::Text(y)) => compare_text(x, y),
    }
}

/// Compares natural keys chunk by chunk.
pub fn compare_keys(a: &Vec<Chunk>, b: &Vec<Chunk>) -> (o: Ordering)
    ensures
        ordering_sign(o) == key_order(a@.map_values(|c: Chunk| c@), b@.map_values(|c: Chunk| c@)),
{
    let ghost va = a@.map_values(|c: Chunk| c@);
    let ghost vb = b@.map_values(|c: Chunk| c@);
    let mut i: usize = 0;
    assert(skip_from(va, i) =~= va);
    assert(skip_from(vb, i) =~= vb);
    while i < a.len() && i < b.len()
        invariant
            i <= a@.len(),
            i <= b@.len(),
            va == a@.map_values(|c: Chunk| c@),
            vb == b@.map_values(|c: Chunk| c@),
            key_order(va, vb) == key_order(skip_from(va, i), skip_from(vb, i)),
        decreases a.len() - i,
    {
        assert(skip_from(va, i)[0] == elem(a@, i)@);
        assert(skip_from(vb, i)[0] == elem(b@, i)@);
        let o = compare_chunk(&a[i], &b[i]);
        match o {
            Ordering::Equal => {},
            _ => {
                return o;
            },
        }
        assert(skip_from(va, i).drop_first() =~= skip_past(va, i));
        assert(skip_from(vb, i).drop_first() =~= skip_past(vb, i));
        i = i + 1;
    }
    if i < a.len() {
        Ordering::Greater
    } else if i < b.len() {
        Ordering::Less
    } else {
        Ordering::Equal
    }
}

pub open spec fn loc(o: Option<&str>) -> Option<Seq<char>> {
    match o {
        Some(s) => Some(s@),
        None => None,
    }
}

/// Walk order through the store: natural sort on the bin code (A-2 before
/// A-10), unlocated items last.
pub fn bin_order(a: Option<&str>, b: Option<&str>) -> (o: Ordering)
    ensures
        ordering_sign(o) == walk_order(loc(a), loc(b)),
{
    match (a, b) {
        (Some(x), Some(y)) => {
            let kx = natural_key(x);
            let ky = natural_key(y);
            compare_keys(&kx, &ky)
        },
        (Some(_), None) => Ordering::Less,
        (None, Some(_)) => Ordering::Greater,
        (None, None) => Ordering::Equal,
    }
}

/// Pick-list order of two lines: by walk order of their bins, then by name.
pub open spec fn line_order(a: PickLineRow, b: PickLineRow) -> int {
    let w = walk_order(string_opt(a.bin_location), string_opt(b.bin_location));
    if w != 0 {
        w
    } else {
        text_order(a.name@, b.name@)
    }
}

/// The pick-list order is a total preorder: swapping two lines flips the
/// sign, and it is transitive.
pub proof fn lemma_line_order_total(a: PickLineRow, b: PickLineRow, c: PickLineRow)
    ensures
        line_order(a, b) == -line_order(b, a),
        line_order(a, b) <= 0 && line_order(b, c) <= 0 ==> line_order(a, c) <= 0,
{
    let (la, lb, lc) = (string_opt(a.bin_location), string_opt(b.bin_location), string_opt(c.bin_location));
    lemma_walk_order_total(la, lb, lc);
    lemma_walk_order_total(lb, lc, la);
    lemma_walk_order_total(lc, la, lb);
    lemma_walk_order_total(la, lc, lb);
    lemma_text_order_range(a.name@, b.name@);
    if line_order(a, b) <= 0 && line_order(b, c) <= 0 && walk_order(la, lc) == 0 {
        lemma_text_order_trans(a.name@, b.name@, c.name@);
    }
}

fn bin_of(l: &PickLineRow) -> (r: Option<&str>)
    ensures
        loc(r) == string_opt(l.bin_location),
{
    match &l.bin_location {
        Some(s) => Some(s.as_str()),
        None => None,
    }
}

/// Whether line `a` goes after line `b` on the pick list.
pub fn line_after(a: &PickLineRow, b: &PickLineRow) -> (r: bool)
    ensures
        r == (line_order(*a, *b) > 0),
{
    match bin_order(bin_of(a), bin_of(b)) {
        Ordering::Greater => true,
        Ordering::Less => false,
        Ordering::Equal => match compare_text(&a.name, &b.name) {
            Ordering::Greater => true,
            _ => false,
        },
    }
}

proof fn lemma_key_order_common_prefix(c: Seq<ChunkView>, x: ChunkView, y: ChunkView)
    requires
        chunk_order(x, y) < 0,
    ensures
        key_order(c.push(x), c.push(y)) < 0,
    decreases c.len(),
{
    let a = c.push(x);
    let b = c.push(y);
    if c.len() == 0 {
        assert(a[0] == x && b[0] == y);
    } else {
        lemma_chunk_order(c[0], c[0]);
        assert(a[0] == c[0] && b[0] == c[0]);
        assert(a.drop_first() =~= c.drop_first().push(x));
        assert(b.drop_first() =~= c.drop_first().push(y));
        lemma_key_order_common_prefix(c.drop_first(), x, y);
    }
}

/// Numbers in bin codes sort by value: after the same part `p` that does
/// not end in a digit, the code ending in `m` comes before the one ending
/// in `n` when `m < n` ("A-2" before "A-10").
pub proof fn lemma_walk_order_numbers(p: Seq<char>, m: u64, n: u64)
    requires
        p.len() == 0 || !is_ascii_digit(p.last()),
        m < n,
    ensures
        key_order(natural_key_of(p + digits_of(m as nat)), natural_key_of(p + digits_of(n as nat))) < 0,
        walk_order(Some(p + digits_of(m as nat)), Some(p + digits_of(n as nat))) < 0,
{
    lemma_digits_value_of(m as nat);
    lemma_digits_value_of(n as nat);
    lemma_natural_key_digit_tail(p, digits_of(m as nat));
    lemma_natural_key_digit_tail(p, digits_of(n as nat));
    let c = flush(key_scan(p)).chunks;
    assert(chunk_of(digits_of(m as nat), true) == ChunkView::Num(m as nat));
    assert(chunk_of(digits_of(n as nat), true) == ChunkView::Num(n as nat));
    lemma_key_order_common_prefix(c, ChunkView::Num(m as nat), ChunkView::Num(n as nat));
}

/// `a` comes before `b` in dictionary order: `a` is a proper prefix of `b`,
/// or at the first position where they differ `a` has the smaller
/// character.
pub open spec fn name_precedes(a: Seq<char>, b: Seq<char>) -> bool {
    ||| (a.len() < b.len() && a =~= b.take(a.len() as int))
    ||| exists|k: int| 0 <= k < a.len() && k < b.len() && a.take(k) =~= b.take(k) && #[trigger] a[k] < b[k]
}

proof fn lemma_text_order_prefix(a: Seq<char>, b: Seq<char>)
    requires
        a.len() < b.len(),
        a =~= b.take(a.len() as int),
    ensures
        text_order(a, b) < 0,
    decreases a.len(),
{
    if a.len() > 0 {
        assert(a[0] == b[0]);
        assert(a.drop_first() =~= b.drop_first().take(a.len() - 1));
        lemma_text_order_prefix(a.drop_first(), b.drop_first());
    }
}

proof fn lemma_text_order_differ(a: Seq<char>, b: Seq<char>, k: int)
    requires
        0 <= k < a.len(),
        k < b.len(),
        a.take(k) =~= b.take(k),
        a[k] < b[k],
    ensures
        text_order(a, b) < 0,
    decreases k,
{
    if k > 0 {
        assert(a.take(k)[0] == b.take(k)[0]);
        assert(a[0] == b[0]);
        assert(a.drop_first().take(k - 1) =~= b.drop_first().take(k - 1)) by {
            assert forall|j: int| 0 <= j < k - 1 implies a.drop_first()[j] == b.drop_first()[j] by {
                assert(a.take(k)[j + 1] == b.take(k)[j + 1]);
            }
        }
        lemma_text_order_differ(a.drop_first(), b.drop_first(), k - 1);
    }
}

/// Names compare in dictionary order: a name that comes first in the
/// dictionary compares below the other.
pub proof fn lemma_text_order_is_dictionary_order(a: Seq<char>, b: Seq<char>)
    requires
        name_precedes(a, b),
    ensures
        text_order(a, b) < 0,
        text_order(b, a) > 0,
{
    lemma_text_order_range(a, b);
    if a.len() < b.len() && a =~= b.take(a.len() as int) {
        lemma_text_order_prefix(a, b);
    } else {
        let k = choose|k: int| 0 <= k < a.len() && k < b.len() && a.take(k) =~= b.take(k) && #[trigger] a[k] < b[k];
        lemma_text_order_differ(a, b, k);
    }
}

/// Two lines in the same bin (or both unlocated) are ordered by name, in
/// dictionary order.
pub proof fn lemma_same_bin_by_name(x: PickLineRow, y: PickLineRow)
    requires
        string_opt(x.bin_location) == string_opt(y.bin_location),
        name_precedes(x.name@, y.name@),
    ensures
        line_order(x, y) < 0,
        line_order(y, x) > 0,
{
    match string_opt(x.bin_location) {
        Some(b) => lemma_key_order_antisymmetric(natural_key_of(b), natural_key_of(b)),
        None => {},
    }
    lemma_text_order_is_dictionary_order(x.name@, y.name@);
}

} // verus!
