//! Dark-store picking: claiming an order, counting items, packing it.

use vstd::prelude::*;
use vstd::string::*;
use crate::money::{decimal, decimal_chars, digit_char, digits_of};
use crate::order::OrderStatus;
use crate::pricing::{lemma_total_prefix, lines_total, lines_total_fits, total_of_lines};
use crate::walk::{lemma_same_bin_by_name, line_after, line_order, lemma_line_order_total, name_precedes};
use crate::text::{non_blank, is_alnum, is_ascii_alnum, is_ascii_digit, is_digit, push_char, to_ascii_upper, trim, trimmed, upper};

verus! {

// ---------- natural keys for bin locations ----------

/// A run of a bin code: a number (saturating at `u64::MAX`) or upper-cased
/// letters.
#[derive(Debug)]
pub enum Chunk {
    Num(u64),
    Text(String),
}

/// A chunk as a mathematical value.
pub enum ChunkView {
    Num(nat),
    Text(Seq<char>),
}

impl View for Chunk {
    type V = ChunkView;

    open spec fn view(&self) -> ChunkView {
        match self {
            Chunk::Num(n) => ChunkView::Num(*n as nat),
            Chunk::Text(s) => ChunkView::Text(s@),
        }
    }
}

/// The value of a run of decimal digits.
pub open spec fn digits_value(d: Seq<char>) -> nat
    decreases d.len(),
{
    if d.len() == 0 {
        0
    } else {
        (digits_value(d.drop_last()) * 10 + (d.last() as nat - 48)) as nat
    }
}

/// The chunk a finished run makes: its number (capped at `u64::MAX`) for
/// digits, its upper-cased letters otherwise.
pub open spec fn chunk_of(run: Seq<char>, digits: bool) -> ChunkView {
    if digits {
        ChunkView::Num(
            if digits_value(run) <= u64::MAX {
                digits_value(run)
            } else {
                u64::MAX as nat
            },
        )
    } else {
        ChunkView::Text(run.map_values(|c: char| to_ascii_upper(c)))
    }
}

/// Scanning state: chunks so far, the current run, and whether it is digits.
pub struct KeyState {
    pub chunks: Seq<ChunkView>,
    pub run: Seq<char>,
    pub digits: bool,
}

/// Closes the current run, if any.
pub open spec fn flush(st: KeyState) -> KeyState {
    if st.run.len() > 0 {
        KeyState { chunks: st.chunks.push(chunk_of(st.run, st.digits)), run: Seq::empty(), digits: st.digits }
    } else {
        st
    }
}

/// One character: letters and digits extend the run (a switch between the
/// two closes it first); anything else closes it.
pub open spec fn key_step(st: KeyState, c: char) -> KeyState {
    if is_ascii_alnum(c) {
        let st2 = if is_ascii_digit(c) != st.digits {
            let f = flush(st);
            KeyState { chunks: f.chunks, run: f.run, digits: is_ascii_digit(c) }
        } else {
            st
        };
        KeyState { chunks: st2.chunks, run: st2.run.push(c), digits: st2.digits }
    } else {
        flush(st)
    }
}

pub open spec fn key_scan(cs: Seq<char>) -> KeyState
    decreases cs.len(),
{
    if cs.len() == 0 {
        KeyState { chunks: Seq::empty(), run: Seq::empty(), digits: false }
    } else {
        key_step(key_scan(cs.drop_last()), cs.last())
    }
}

/// The natural sort key of a bin code: its runs of digits (as numbers) and
/// of letters (upper-cased), in order; other characters only separate runs.
pub open spec fn natural_key_of(s: Seq<char>) -> Seq<ChunkView> {
    flush(key_scan(s)).chunks
}

proof fn lemma_value_grows(d: Seq<char>, c: char)
    requires
        is_ascii_digit(c),
    ensures
        digits_value(d.push(c)) >= digits_value(d),
        digits_value(d.push(c)) == digits_value(d) * 10 + (c as nat - 48),
{
    assert(d.push(c).drop_last() =~= d);
}

/// The run closed as a chunk: its number saturated, or its letters.
fn close_run(run: &Vec<char>, value: u64, digits: bool) -> (c: Chunk)
    requires
        run@.len() > 0,
        digits ==> value == (if digits_value(run@) <= u64::MAX {
            digits_value(run@)
        } else {
            u64::MAX as nat
        }),
    ensures
        c@ == chunk_of(run@, digits),
{
    if digits {
        Chunk::Num(value)
    } else {
        let mut s = String::new();
        let mut i: usize = 0;
        while i < run.len()
            invariant
                i <= run.len(),
                s@ == run@.take(i as int).map_values(|c: char| to_ascii_upper(c)),
            decreases run.len() - i,
        {
            push_char(&mut s, upper(run[i]));
            assert(run@.take(i as int + 1).map_values(|c: char| to_ascii_upper(c)) =~= run@.take(
                i as int,
            ).map_values(|c: char| to_ascii_upper(c)).push(to_ascii_upper(run@[i as int])));
            i = i + 1;
        }
        assert(run@.take(run@.len() as int) =~= run@);
        Chunk::Text(s)
    }
}

/// Saturating `value * 10 + d`.
fn shift_in(value: u64, d: u64) -> (r: u64)
    requires
        d < 10,
    ensures
        value * 10 + d <= u64::MAX ==> r == value * 10 + d,
        value * 10 + d > u64::MAX ==> r == u64::MAX,
{
    if value > (u64::MAX - d) / 10 {
        u64::MAX
    } else {
        value * 10 + d
    }
}

// ---------- laws of natural keys ----------

/// A run of digits is only ever held while scanning digits.
pub open spec fn digit_run(st: KeyState) -> bool {
    st.digits ==> forall|i: int| 0 <= i < st.run.len() ==> is_ascii_digit(#[trigger] st.run[i])
}

/// `s` with its ASCII letters upper-cased.
pub open spec fn upper_text(s: Seq<char>) -> Seq<char> {
    s.map_values(|c: char| to_ascii_upper(c))
}

proof fn lemma_upper_char(c: char)
    ensures
        is_ascii_alnum(to_ascii_upper(c)) == is_ascii_alnum(c),
        is_ascii_digit(to_ascii_upper(c)) == is_ascii_digit(c),
        to_ascii_upper(to_ascii_upper(c)) == to_ascii_upper(c),
        is_ascii_digit(c) ==> to_ascii_upper(c) == c,
{
}

proof fn lemma_scan_digit_run(s: Seq<char>)
    ensures
        digit_run(key_scan(s)),
    decreases s.len(),
{
    if s.len() > 0 {
        lemma_scan_digit_run(s.drop_last());
        let st = key_scan(s.drop_last());
        let c = s.last();
        let r = key_step(st, c);
        if is_ascii_alnum(c) && is_ascii_digit(c) == st.digits {
            assert forall|i: int| 0 <= i < r.run.len() && r.digits implies is_ascii_digit(#[trigger] r.run[i]) by {
                if i < st.run.len() {
                    assert(r.run[i] == st.run[i]);
                }
            }
        }
    }
}

proof fn lemma_chunk_of_upper(run: Seq<char>, digits: bool)
    requires
        digits ==> forall|i: int| 0 <= i < run.len() ==> is_ascii_digit(#[trigger] run[i]),
    ensures
        chunk_of(upper_text(run), digits) == chunk_of(run, digits),
{
    if digits {
        assert forall|i: int| 0 <= i < run.len() implies #[trigger] upper_text(run)[i] == run[i] by {
            lemma_upper_char(run[i]);
        }
        assert(upper_text(run) =~= run);
    } else {
        assert forall|i: int| 0 <= i < run.len() implies #[trigger] upper_text(upper_text(run))[i] == upper_text(run)[i] by {
            lemma_upper_char(run[i]);
        }
        assert(upper_text(upper_text(run)) =~= upper_text(run));
    }
}

proof fn lemma_scan_upper(s: Seq<char>)
    ensures
        key_scan(upper_text(s)).chunks == key_scan(s).chunks,
        key_scan(upper_text(s)).digits == key_scan(s).digits,
        key_scan(upper_text(s)).run == upper_text(key_scan(s).run),
    decreases s.len(),
{
    if s.len() == 0 {
        assert(upper_text(s) =~= s);
        assert(upper_text(key_scan(s).run) =~= key_scan(s).run);
    } else {
        let t = s.drop_last();
        let c = s.last();
        lemma_scan_upper(t);
        lemma_scan_digit_run(t);
        lemma_upper_char(c);
        assert(upper_text(s).drop_last() =~= upper_text(t));
        assert(upper_text(s).last() == to_ascii_upper(c));
        let st = key_scan(t);
        let su = key_scan(upper_text(t));
        lemma_chunk_of_upper(st.run, st.digits);
        let a = key_step(st, c);
        let b = key_step(su, to_ascii_upper(c));
        if is_ascii_alnum(c) {
            if is_ascii_digit(c) != st.digits {
                assert(b.run =~= upper_text(a.run));
            } else {
                assert(b.run =~= upper_text(a.run));
            }
        } else {
            assert(b.run =~= upper_text(a.run));
        }
    }
}

/// Natural keys ignore case: a bin code and its upper-cased form have the
/// same key.
pub proof fn lemma_natural_key_ignores_case(s: Seq<char>)
    ensures
        natural_key_of(upper_text(s)) == natural_key_of(s),
{
    lemma_scan_upper(s);
    lemma_scan_digit_run(s);
    let st = key_scan(s);
    lemma_chunk_of_upper(st.run, st.digits);
}

proof fn lemma_scan_separators(s: Seq<char>, t: Seq<char>)
    requires
        s.len() == t.len(),
        forall|j: int|
            0 <= j < s.len() ==> #[trigger] s[j] == t[j] || (!is_ascii_alnum(s[j]) && !is_ascii_alnum(t[j])),
    ensures
        key_scan(s) == key_scan(t),
    decreases s.len(),
{
    if s.len() > 0 {
        assert forall|j: int| 0 <= j < s.len() - 1 implies #[trigger] s.drop_last()[j] == t.drop_last()[j] || (
            !is_ascii_alnum(s.drop_last()[j]) && !is_ascii_alnum(t.drop_last()[j])) by {
            assert(s.drop_last()[j] == s[j] && t.drop_last()[j] == t[j]);
        }
        lemma_scan_separators(s.drop_last(), t.drop_last());
        assert(s[s.len() - 1] == t[t.len() - 1] || (!is_ascii_alnum(s[s.len() - 1]) && !is_ascii_alnum(t[t.len() - 1])));
    }
}

/// Characters other than ASCII letters and digits only separate runs:
/// replacing one by another leaves the key unchanged ("A-2" and "A 2").
pub proof fn lemma_natural_key_any_separator(s: Seq<char>, i: int, c: char)
    requires
        0 <= i < s.len(),
        !is_ascii_alnum(s[i]),
        !is_ascii_alnum(c),
    ensures
        natural_key_of(s.update(i, c)) == natural_key_of(s),
{
    lemma_scan_separators(s.update(i, c), s);
}

proof fn lemma_scan_inserted_separator(x: Seq<char>, c: char, y: Seq<char>)
    requires
        x.len() > 0,
        y.len() > 0,
        is_ascii_alnum(x.last()),
        is_ascii_alnum(y[0]),
        is_ascii_digit(x.last()) != is_ascii_digit(y[0]),
        !is_ascii_alnum(c),
    ensures
        key_scan(x.push(c) + y) == key_scan(x + y),
    decreases y.len(),
{
    if y.len() == 1 {
        assert(x.push(c) + y =~= x.push(c).push(y[0]));
        assert(x + y =~= x.push(y[0]));
        assert(x.push(c).push(y[0]).drop_last() =~= x.push(c));
        assert(x.push(c).drop_last() =~= x);
        assert(x.push(y[0]).drop_last() =~= x);
        let st = key_scan(x);
        assert(x =~= x.drop_last().push(x.last()));
        assert(st == key_step(key_scan(x.drop_last()), x.last()));
        assert(st.digits == is_ascii_digit(x.last()));
        assert(x.push(c).last() == c);
        assert(key_scan(x.push(c)) == flush(st));
        assert(x.push(c).push(y[0]).last() == y[0]);
        assert(x.push(y[0]).last() == y[0]);
        assert(key_scan(x.push(c).push(y[0])) == key_step(flush(st), y[0]));
        assert(key_scan(x.push(y[0])) == key_step(st, y[0]));
        assert(flush(flush(st)) == flush(st));
        assert(key_step(flush(st), y[0]) == key_step(st, y[0]));
    } else {
        let y0 = y.drop_last();
        assert(y0[0] == y[0]);
        lemma_scan_inserted_separator(x, c, y0);
        assert((x.push(c) + y).drop_last() =~= x.push(c) + y0);
        assert((x + y).drop_last() =~= x + y0);
        assert((x.push(c) + y).last() == y.last());
        assert((x + y).last() == y.last());
        assert(key_scan(x.push(c) + y) == key_step(key_scan(x.push(c) + y0), y.last()));
        assert(key_scan(x + y) == key_step(key_scan(x + y0), y.last()));
    }
}

/// A separator between a letter and a digit changes nothing: "A2" and
/// "A-2" have the same key.
pub proof fn lemma_natural_key_separator_between_classes(x: Seq<char>, c: char, y: Seq<char>)
    requires
        x.len() > 0,
        y.len() > 0,
        is_ascii_alnum(x.last()),
        is_ascii_alnum(y[0]),
        is_ascii_digit(x.last()) != is_ascii_digit(y[0]),
        !is_ascii_alnum(c),
    ensures
        natural_key_of(x.push(c) + y) == natural_key_of(x + y),
{
    lemma_scan_inserted_separator(x, c, y);
}

/// The digits of `n` are ASCII digits whose value is `n`.
pub proof fn lemma_digits_value_of(n: nat)
    ensures
        digits_value(digits_of(n)) == n,
        digits_of(n).len() > 0,
        forall|i: int| 0 <= i < digits_of(n).len() ==> is_ascii_digit(#[trigger] digits_of(n)[i]),
    decreases n,
{
    let d = digits_of(n);
    let r = (n % 10) + 48;
    assert((r as char) as nat == r);
    if n < 10 {
        assert(d.drop_last() =~= Seq::<char>::empty());
        assert(d.last() == digit_char(n));
        assert(digits_value(d) == digits_value(d.drop_last()) * 10 + (d.last() as nat - 48));
    } else {
        lemma_digits_value_of(n / 10);
        let h = digits_of(n / 10);
        assert(d.drop_last() =~= h);
        assert(d.last() == digit_char(n % 10));
        assert(digits_value(d) == digits_value(h) * 10 + (d.last() as nat - 48));
        assert forall|i: int| 0 <= i < d.len() implies is_ascii_digit(#[trigger] d[i]) by {
            if i < h.len() {
                assert(d[i] == h[i]);
            }
        }
    }
}

proof fn lemma_scan_digit_tail(p: Seq<char>, ds: Seq<char>)
    requires
        ds.len() > 0,
        forall|i: int| 0 <= i < ds.len() ==> is_ascii_digit(#[trigger] ds[i]),
        p.len() == 0 || !is_ascii_digit(p.last()),
    ensures
        key_scan(p + ds) == (KeyState { chunks: flush(key_scan(p)).chunks, run: ds, digits: true }),
    decreases ds.len(),
{
    let st = key_scan(p);
    if ds.len() == 1 {
        let d = ds[0];
        assert(is_ascii_digit(d));
        assert(p + ds =~= p.push(d));
        assert(p.push(d).drop_last() =~= p);
        assert(p.push(d).last() == d);
        if p.len() > 0 {
            assert(p =~= p.drop_last().push(p.last()));
            assert(st == key_step(key_scan(p.drop_last()), p.last()));
        }
        assert(!st.digits || st.run.len() == 0);
        assert(Seq::<char>::empty().push(d) =~= ds);
        assert(key_scan(p + ds) == key_step(st, d));
        if st.digits {
            assert(flush(st) == st);
            assert(st.run.push(d) =~= ds);
        } else {
            assert(flush(st).run.push(d) =~= ds);
        }
    } else {
        let d0 = ds.drop_last();
        assert forall|i: int| 0 <= i < d0.len() implies is_ascii_digit(#[trigger] d0[i]) by {
            assert(d0[i] == ds[i]);
        }
        lemma_scan_digit_tail(p, d0);
        assert((p + ds).drop_last() =~= p + d0);
        assert((p + ds).last() == ds.last());
        assert(is_ascii_digit(ds[ds.len() - 1]));
        assert(d0.push(ds.last()) =~= ds);
        assert(key_scan(p + ds) == key_step(key_scan(p + d0), ds.last()));
    }
}

/// The key of a code that ends in the digits `ds`, after a part `p` that
/// does not end in a digit: the key of `p`, then the number `ds` spells.
pub proof fn lemma_natural_key_digit_tail(p: Seq<char>, ds: Seq<char>)
    requires
        ds.len() > 0,
        forall|i: int| 0 <= i < ds.len() ==> is_ascii_digit(#[trigger] ds[i]),
        p.len() == 0 || !is_ascii_digit(p.last()),
    ensures
        natural_key_of(p + ds) == flush(key_scan(p)).chunks.push(chunk_of(ds, true)),
{
    lemma_scan_digit_tail(p, ds);
}

/// The natural sort key of a bin code: "A-10-1" is `[A, 10, 1]`, so A-2
/// sorts before A-10.
pub fn natural_key(s: &str) -> (key: Vec<Chunk>)
    ensures
        key@.map_values(|c: Chunk| c@) == natural_key_of(s@),
{
    let mut out: Vec<Chunk> = Vec::new();
    let mut run: Vec<char> = Vec::new();
    let mut value: u64 = 0;
    let mut digits = false;
    for ch in it: s.chars()
        invariant
            it.seq() == s@,
            out@.map_values(|c: Chunk| c@) == key_scan(it.seq().take(it.index() as int)).chunks,
            run@ == key_scan(it.seq().take(it.index() as int)).run,
            digits == key_scan(it.seq().take(it.index() as int)).digits,
            digits ==> value == (if digits_value(run@) <= u64::MAX {
                digits_value(run@)
            } else {
                u64::MAX as nat
            }),
    {
        let ghost pre = it.seq().take(it.index() as int);
        assert(it.seq().take(it.index() as int + 1).drop_last() =~= pre);
        let ghost st = key_scan(pre);
        if is_alnum(ch) {
            let d = is_digit(ch);
            if d != digits {
                if run.len() > 0 {
                    let c = close_run(&run, value, digits);
                    let ghost before = out@;
                    out.push(c);
                    assert(out@.map_values(|c: Chunk| c@) =~= before.map_values(|c: Chunk| c@).push(c@));
                    run = Vec::new();
                }
                digits = d;
                value = 0;
                assert(digits_value(run@) == 0) by {
                    assert(run@.len() == 0);
                }
            }
            if d {
                let dv: u64 = ((ch as u32) - 48) as u64;
                proof {
                    lemma_value_grows(run@, ch);
                }
                let ghost old_run = run@;
                assert(dv == ch as nat - 48);
                value = shift_in(value, dv);
                run.push(ch);
                assert(run@ == old_run.push(ch));
            } else {
                run.push(ch);
            }
        } else {
            if run.len() > 0 {
                let c = close_run(&run, value, digits);
                let ghost before = out@;
                out.push(c);
                assert(out@.map_values(|c: Chunk| c@) =~= before.map_values(|c: Chunk| c@).push(c@));
                run = Vec::new();
            }
            value = 0;
            assert(digits_value(run@) == 0) by {
                assert(run@.len() == 0);
            }
        }
    }
    assert(s@.take(s@.len() as int) =~= s@);
    if run.len() > 0 {
        let c = close_run(&run, value, digits);
        let ghost before = out@;
        out.push(c);
        assert(out@.map_values(|c: Chunk| c@) =~= before.map_values(|c: Chunk| c@).push(c@));
    }
    out
}

// ---------- pick lists ----------

/// One line of an order as the picker works it.
pub struct PickLineRow {
    pub product_id: u128,
    pub name: String,
    pub bin_location: Option<String>,
    pub quantity: i32,
    pub picked_quantity: Option<i32>,
    pub unit_price_paise: i64,
    pub unit_mrp_paise: i64,
}

/// Every line has been counted.
pub open spec fn all_counted(lines: Seq<PickLineRow>) -> bool {
    forall|i: int| 0 <= i < lines.len() ==> (#[trigger] lines[i]).picked_quantity is Some
}

/// Units found on a line (nothing until counted).
pub open spec fn found(l: PickLineRow) -> int {
    match l.picked_quantity {
        Some(p) => p as int,
        None => 0,
    }
}

/// At least one unit of something was found.
pub open spec fn any_found(lines: Seq<PickLineRow>) -> bool {
    exists|i: int| 0 <= i < lines.len() && found(#[trigger] lines[i]) > 0
}

/// The order can be packed: being picked, every line counted, something found.
pub fn can_pack(status: OrderStatus, lines: &[PickLineRow]) -> (b: bool)
    ensures
        b == (status == OrderStatus::Picking && all_counted(lines@) && any_found(lines@)),
{
    let mut counted = true;
    let mut some = false;
    let mut i: usize = 0;
    while i < lines.len()
        invariant
            i <= lines.len(),
            counted == forall|j: int| 0 <= j < i ==> (#[trigger] lines@[j]).picked_quantity is Some,
            some == exists|j: int| 0 <= j < i && found(#[trigger] lines@[j]) > 0,
        decreases lines.len() - i,
    {
        let l = &lines[i];
        if l.picked_quantity.is_none() {
            counted = false;
        }
        let f: i32 = match l.picked_quantity {
            Some(p) => p,
            None => 0,
        };
        if f > 0 {
            some = true;
        }
        proof {
            if !some {
                assert forall|j: int| 0 <= j < i + 1 implies !(found(#[trigger] lines@[j]) > 0) by {
                    if j == i {
                        assert(lines@[j] == *l);
                    }
                }
            }
        }
        i = i + 1;
    }
    status == OrderStatus::Picking && counted && some
}

/// A counted scan completes its line when the count reaches the quantity.
pub fn line_complete(quantity: i32, picked: Option<i32>) -> (b: bool)
    ensures
        b == (picked == Some(quantity)),
{
    match picked {
        Some(p) => p == quantity,
        None => false,
    }
}

/// Why a picker's request is refused.
#[derive(Clone, Copy, PartialEq, Eq, Structural, Debug)]
pub enum PickError {
    /// The picker is not assigned to a store (403 `NO_STORE`).
    NoStore,
    /// No such order in the picker's store (404).
    NotFound,
    /// The order is not being picked (409 `NOT_PICKING`).
    NotPicking { status: OrderStatus },
    /// Another picker holds the order (409 `NOT_YOUR_ORDER`).
    NotYourOrder,
    /// Another picker started first (409 `ALREADY_CLAIMED`).
    AlreadyClaimed,
    /// Some line is not counted yet (409 `NOT_ALL_COUNTED`).
    NotAllCounted,
    /// Nothing was found; cancel instead (409 `NOTHING_PICKED`).
    NothingPicked,
    /// Every unit of that product is already picked (409 `LINE_COMPLETE`).
    LineComplete,
    /// No line has that barcode (422 `SCAN_MISMATCH`).
    ScanMismatch,
}

/// The HTTP status of a picking error.
pub open spec fn pick_status(e: PickError) -> u16 {
    match e {
        PickError::NoStore => 403,
        PickError::NotFound => 404,
        PickError::ScanMismatch => 422,
        _ => 409,
    }
}

pub open spec fn pick_code(e: PickError) -> Seq<char> {
    match e {
        PickError::NoStore => "NO_STORE"@,
        PickError::NotFound => "NOT_FOUND"@,
        PickError::NotPicking { .. } => "NOT_PICKING"@,
        PickError::NotYourOrder => "NOT_YOUR_ORDER"@,
        PickError::AlreadyClaimed => "ALREADY_CLAIMED"@,
        PickError::NotAllCounted => "NOT_ALL_COUNTED"@,
        PickError::NothingPicked => "NOTHING_PICKED"@,
        PickError::LineComplete => "LINE_COMPLETE"@,
        PickError::ScanMismatch => "SCAN_MISMATCH"@,
    }
}

impl PickError {
    /// The HTTP status of this error.
    pub fn status(&self) -> (s: u16)
        ensures
            s == pick_status(*self),
    {
        match self {
            PickError::NoStore => 403,
            PickError::NotFound => 404,
            PickError::ScanMismatch => 422,
            _ => 409,
        }
    }

    /// The machine-readable error code.
    pub fn code(&self) -> (c: &'static str)
        ensures
            c@ == pick_code(*self),
    {
        match self {
            PickError::NoStore => "NO_STORE",
            PickError::NotFound => "NOT_FOUND",
            PickError::NotPicking { .. } => "NOT_PICKING",
            PickError::NotYourOrder => "NOT_YOUR_ORDER",
            PickError::AlreadyClaimed => "ALREADY_CLAIMED",
            PickError::NotAllCounted => "NOT_ALL_COUNTED",
            PickError::NothingPicked => "NOTHING_PICKED",
            PickError::LineComplete => "LINE_COMPLETE",
            PickError::ScanMismatch => "SCAN_MISMATCH",
        }
    }
}

/// The message for an error whose text does not depend on the order's lines.
pub open spec fn pick_message(e: PickError) -> Seq<char> {
    match e {
        PickError::NoStore => "you're not assigned to a store yet"@,
        PickError::NotFound => "order not found"@,
        PickError::NotPicking { status } => "order is "@ + crate::order::status_name(status)
            + ", not being picked"@,
        PickError::NotYourOrder => "another picker is working on this order"@,
        PickError::AlreadyClaimed => "another picker already started this order"@,
        PickError::NotAllCounted => "scan or count every item before packing"@,
        PickError::NothingPicked => "nothing was found; cancel the order instead"@,
        PickError::LineComplete => "all of it already picked \u{2014} put the extra back"@,
        PickError::ScanMismatch => "this item isn't in the order \u{2014} check the product and try again"@,
    }
}

/// The refusal of a scan for a line whose units are all picked.
pub fn line_complete_message(name: &str) -> (m: String)
    ensures
        m@ == "all "@ + name@ + " already picked \u{2014} put the extra back"@,
{
    let mut m = String::from_str("all ");
    m.append(name);
    m.append(" already picked \u{2014} put the extra back");
    m
}

impl PickError {
    /// The message shown to the picker.
    pub fn message(&self) -> (m: String)
        ensures
            m@ == pick_message(*self),
    {
        match self {
            PickError::NoStore => String::from_str("you're not assigned to a store yet"),
            PickError::NotFound => String::from_str("order not found"),
            PickError::NotPicking { status } => {
                let mut m = String::from_str("order is ");
                m.append(status.as_str());
                m.append(", not being picked");
                m
            },
            PickError::NotYourOrder => String::from_str("another picker is working on this order"),
            PickError::AlreadyClaimed => String::from_str("another picker already started this order"),
            PickError::NotAllCounted => String::from_str("scan or count every item before packing"),
            PickError::NothingPicked => String::from_str("nothing was found; cancel the order instead"),
            PickError::LineComplete => String::from_str("all of it already picked \u{2014} put the extra back"),
            PickError::ScanMismatch => String::from_str(
                "this item isn't in the order \u{2014} check the product and try again",
            ),
        }
    }
}

/// The picker's store; pickers without one can't do anything.
pub fn store_of(store: Option<u128>) -> (r: Result<u128, PickError>)
    ensures
        match store {
            Some(s) => r == Ok::<u128, PickError>(s),
            None => r == Err::<u128, PickError>(PickError::NoStore),
        },
{
    match store {
        Some(s) => Ok(s),
        None => Err(PickError::NoStore),
    }
}

/// An order is visible to a picker only in their own store (404 otherwise,
/// so other stores' orders aren't even confirmed to exist).
pub fn check_in_store(picker_store: Option<u128>, order_store: Option<u128>) -> (r: Result<(), PickError>)
    ensures
        picker_store is None ==> r == Err::<(), PickError>(PickError::NoStore),
        picker_store is Some && (order_store is None || order_store != picker_store) ==> r == Err::<
            (),
            PickError,
        >(PickError::NotFound),
        picker_store is Some && order_store == picker_store ==> r is Ok,
{
    let s = store_of(picker_store)?;
    match order_store {
        Some(o) => if o == s {
            Ok(())
        } else {
            Err(PickError::NotFound)
        },
        None => Err(PickError::NotFound),
    }
}

/// The order must be PICKING and claimed by this picker.
pub fn check_mine(status: OrderStatus, holder: Option<u128>, picker: u128) -> (r: Result<(), PickError>)
    ensures
        status != OrderStatus::Picking ==> r == Err::<(), PickError>(PickError::NotPicking { status }),
        status == OrderStatus::Picking && holder != Some(picker) ==> r == Err::<(), PickError>(
            PickError::NotYourOrder,
        ),
        status == OrderStatus::Picking && holder == Some(picker) ==> r is Ok,
{
    if status != OrderStatus::Picking {
        return Err(PickError::NotPicking { status });
    }
    match holder {
        Some(h) => if h == picker {
            Ok(())
        } else {
            Err(PickError::NotYourOrder)
        },
        None => Err(PickError::NotYourOrder),
    }
}

/// When claiming fails: another picker got there first if the order was
/// already being picked, otherwise the status does not allow picking.
pub fn claim_failed(status_seen: OrderStatus) -> (already_claimed: bool)
    ensures
        already_claimed == (status_seen == OrderStatus::Picking),
{
    status_seen == OrderStatus::Picking
}

/// A scan's result from the database.
pub enum ScanOutcome {
    /// Counted one unit of this product.
    Counted(u128),
    /// The product is in the order but already fully picked.
    AlreadyComplete(String),
    /// No line in this order has that barcode.
    NotInOrder,
}

/// The refusal for a scan that counted nothing.
pub fn scan_error(outcome: &ScanOutcome) -> (r: Option<PickError>)
    ensures
        match outcome {
            ScanOutcome::Counted(_) => r is None,
            ScanOutcome::AlreadyComplete(_) => r == Some(PickError::LineComplete),
            ScanOutcome::NotInOrder => r == Some(PickError::ScanMismatch),
        },
{
    match outcome {
        ScanOutcome::Counted(_) => None,
        ScanOutcome::AlreadyComplete(_) => Some(PickError::LineComplete),
        ScanOutcome::NotInOrder => Some(PickError::ScanMismatch),
    }
}

// ---------- pick-list order ----------

/// `x` inserted into `s` after every line that does not go after it (so
/// after its equals: the sort is stable).
pub open spec fn insert_in_order(s: Seq<PickLineRow>, x: PickLineRow) -> Seq<PickLineRow>
    decreases s.len(),
{
    if s.len() == 0 {
        seq![x]
    } else if line_order(s.last(), x) <= 0 {
        s.push(x)
    } else {
        insert_in_order(s.drop_last(), x).push(s.last())
    }
}

/// The lines in pick-list order, equal lines in their given order.
pub open spec fn walk_sorted(s: Seq<PickLineRow>) -> Seq<PickLineRow>
    decreases s.len(),
{
    if s.len() == 0 {
        s
    } else {
        insert_in_order(walk_sorted(s.drop_last()), s.last())
    }
}

/// Each line comes no later in the walk than the ones after it.
pub open spec fn in_walk_order(s: Seq<PickLineRow>) -> bool {
    forall|i: int, j: int| 0 <= i < j < s.len() ==> line_order(#[trigger] s[i], #[trigger] s[j]) <= 0
}

proof fn lemma_insert_at(s: Seq<PickLineRow>, x: PickLineRow, j: int)
    requires
        0 <= j <= s.len(),
        forall|k: int| j <= k < s.len() ==> line_order(#[trigger] s[k], x) > 0,
        j > 0 ==> line_order(s[j - 1], x) <= 0,
    ensures
        insert_in_order(s, x) =~= s.insert(j, x),
    decreases s.len(),
{
    if j < s.len() {
        assert(line_order(s[s.len() - 1], x) > 0);
        let t = s.drop_last();
        assert forall|k: int| j <= k < t.len() implies line_order(#[trigger] t[k], x) > 0 by {
            assert(t[k] == s[k]);
        }
        lemma_insert_at(t, x, j);
        assert(t.insert(j, x).push(s.last()) =~= s.insert(j, x));
    } else if s.len() > 0 {
        assert(s.push(x) =~= s.insert(j, x));
    }
}

proof fn lemma_insert_bounded(s: Seq<PickLineRow>, x: PickLineRow, y: PickLineRow)
    requires
        forall|k: int| 0 <= k < s.len() ==> line_order(#[trigger] s[k], y) <= 0,
        line_order(x, y) <= 0,
    ensures
        forall|k: int| 0 <= k < insert_in_order(s, x).len() ==> line_order(#[trigger] insert_in_order(s, x)[k], y) <= 0,
        insert_in_order(s, x).len() == s.len() + 1,
    decreases s.len(),
{
    if s.len() > 0 && line_order(s.last(), x) > 0 {
        let t = s.drop_last();
        assert forall|k: int| 0 <= k < t.len() implies line_order(#[trigger] t[k], y) <= 0 by {
            assert(t[k] == s[k]);
        }
        lemma_insert_bounded(t, x, y);
        assert(line_order(s[s.len() - 1], y) <= 0);
    }
}

proof fn lemma_insert_sorted(s: Seq<PickLineRow>, x: PickLineRow)
    requires
        in_walk_order(s),
    ensures
        in_walk_order(insert_in_order(s, x)),
        insert_in_order(s, x).to_multiset() =~= s.to_multiset().insert(x),
        insert_in_order(s, x).len() == s.len() + 1,
    decreases s.len(),
{
    broadcast use vstd::seq_lib::group_to_multiset_ensures;

    if s.len() == 0 {
        assert(seq![x] =~= s.push(x));
    } else {
        let last = s.last();
        let t = s.drop_last();
        assert(s =~= t.push(last));
        if line_order(last, x) <= 0 {
            assert forall|i: int, j: int| 0 <= i < j < s.len() + 1 implies line_order(
                #[trigger] s.push(x)[i],
                #[trigger] s.push(x)[j],
            ) <= 0 by {
                if j == s.len() {
                    if i < s.len() - 1 {
                        assert(line_order(s[i], last) <= 0);
                    }
                    lemma_line_order_total(s[i], last, x);
                }
            }
        } else {
            assert(in_walk_order(t));
            lemma_insert_sorted(t, x);
            let r = insert_in_order(t, x);
            assert forall|k: int| 0 <= k < t.len() implies line_order(#[trigger] t[k], last) <= 0 by {
                assert(t[k] == s[k]);
            }
            lemma_line_order_total(x, last, last);
            lemma_insert_bounded(t, x, last);
            assert forall|i: int, j: int| 0 <= i < j < r.len() + 1 implies line_order(
                #[trigger] r.push(last)[i],
                #[trigger] r.push(last)[j],
            ) <= 0 by {
                if j == r.len() {
                    assert(line_order(r[i], last) <= 0);
                } else {
                    assert(r.push(last)[i] == r[i]);
                    assert(r.push(last)[j] == r[j]);
                }
            }
        }
    }
}

/// Sorting into walk order gives a permutation of the lines in walk order.
pub proof fn lemma_walk_sorted(s: Seq<PickLineRow>)
    ensures
        in_walk_order(walk_sorted(s)),
        walk_sorted(s).to_multiset() =~= s.to_multiset(),
        walk_sorted(s).len() == s.len(),
    decreases s.len(),
{
    broadcast use vstd::seq_lib::group_to_multiset_ensures;

    if s.len() > 0 {
        lemma_walk_sorted(s.drop_last());
        lemma_insert_sorted(walk_sorted(s.drop_last()), s.last());
        assert(s =~= s.drop_last().push(s.last()));
    }
}

/// In a pick list in walk order, of two lines in the same bin (or both
/// unlocated) the one whose name comes first in the dictionary comes first.
pub proof fn lemma_pick_list_same_bin_by_name(s: Seq<PickLineRow>, i: int, j: int)
    requires
        in_walk_order(s),
        0 <= i < s.len(),
        0 <= j < s.len(),
        string_opt(s[i].bin_location) == string_opt(s[j].bin_location),
        name_precedes(s[i].name@, s[j].name@),
    ensures
        i < j,
{
    lemma_same_bin_by_name(s[i], s[j]);
    if j <= i {
        if j < i {
            assert(line_order(s[j], s[i]) <= 0);
        }
    }
}

/// Whether an order can be packed depends on its counts alone: it can while
/// it is being picked, once every line is counted and some line was found
/// at all (even short of its quantity); a line never counted, or nothing
/// found anywhere, rules it out.
pub proof fn lemma_can_pack_when_something_found(status: OrderStatus, lines: Seq<PickLineRow>)
    ensures
        (status == OrderStatus::Picking && all_counted(lines) && any_found(lines)) <==> (
            status == OrderStatus::Picking
            && (forall|j: int| 0 <= j < lines.len() ==> (#[trigger] lines[j]).picked_quantity is Some)
            && exists|i: int| 0 <= i < lines.len() && (#[trigger] lines[i]).picked_quantity is Some && lines[i].picked_quantity->0 > 0),
{
    if exists|i: int| 0 <= i < lines.len() && (#[trigger] lines[i]).picked_quantity is Some && lines[i].picked_quantity->0 > 0 {
        let i = choose|i: int| 0 <= i < lines.len() && (#[trigger] lines[i]).picked_quantity is Some && lines[i].picked_quantity->0 > 0;
        assert(found(lines[i]) > 0);
    }
    if any_found(lines) {
        let i = choose|i: int| 0 <= i < lines.len() && found(#[trigger] lines[i]) > 0;
        assert(lines[i].picked_quantity is Some && lines[i].picked_quantity->0 > 0);
    }
}

/// The lines of a pick list in the order the picker walks the store: by bin
/// (natural sort, unlocated last), then by name; equal lines keep their
/// order.
pub fn pick_list_order(rows: Vec<PickLineRow>) -> (sorted: Vec<PickLineRow>)
    ensures
        sorted@ == walk_sorted(rows@),
        in_walk_order(sorted@),
        sorted@.to_multiset() == rows@.to_multiset(),
{
    let ghost orig = rows@;
    let n = rows.len();
    let mut rest = rows;
    let mut out: Vec<PickLineRow> = Vec::new();
    let mut k: usize = 0;
    while rest.len() > 0
        invariant
            k <= orig.len(),
            orig.len() == n,
            rest@ == orig.skip(k as int),
            out@ == walk_sorted(orig.take(k as int)),
        decreases rest.len(),
    {
        let x = rest.remove(0);
        assert(x == orig[k as int]);
        let mut j: usize = out.len();
        while j > 0 && line_after(&out[j - 1], &x)
            invariant
                j <= out.len(),
                forall|m: int| j <= m < out@.len() ==> line_order(#[trigger] out@[m], x) > 0,
            decreases j,
        {
            j = j - 1;
        }
        proof {
            lemma_insert_at(out@, x, j as int);
            assert(orig.take(k as int + 1).drop_last() =~= orig.take(k as int));
            assert(orig.take(k as int + 1).last() == x);
        }
        out.insert(j, x);
        assert(rest@ =~= orig.skip(k as int + 1));
        k = k + 1;
    }
    proof {
        assert(orig.take(k as int) =~= orig);
        lemma_walk_sorted(orig);
    }
    out
}

// ---------- packing ----------

/// `(unit price or MRP, units found)` of the first `k` lines.
pub open spec fn picked_prices(lines: Seq<PickLineRow>, k: int, mrp: bool) -> Seq<(i64, i32)>
    decreases k,
{
    if k <= 0 {
        Seq::empty()
    } else {
        let l = lines[k - 1];
        picked_prices(lines, k - 1, mrp).push((if mrp { l.unit_mrp_paise } else { l.unit_price_paise }, found(l) as i32))
    }
}

/// A line found short: fewer units than ordered.
pub open spec fn short(l: PickLineRow) -> bool {
    found(l) < l.quantity
}

/// Indices of the short lines among the first `k`.
pub open spec fn short_lines(lines: Seq<PickLineRow>, k: int) -> Seq<int>
    decreases k,
{
    if k <= 0 {
        Seq::empty()
    } else if short(lines[k - 1]) {
        short_lines(lines, k - 1).push(k - 1)
    } else {
        short_lines(lines, k - 1)
    }
}

/// `"{missing}× {name}"` for each short line, joined by `", "`.
pub open spec fn missing_text(lines: Seq<PickLineRow>, idx: Seq<int>) -> Seq<char>
    decreases idx.len(),
{
    if idx.len() == 0 {
        Seq::empty()
    } else {
        let l = lines[idx.last()];
        let item = decimal(l.quantity - found(l)) + seq!['\u{d7}', ' '] + l.name@;
        if idx.len() == 1 {
            item
        } else {
            missing_text(lines, idx.drop_last()) + ", "@ + item
        }
    }
}

/// The packing note: the bag count, and what was missing, if anything.
pub open spec fn pack_note(lines: Seq<PickLineRow>, bags: i32) -> Seq<char> {
    let idx = short_lines(lines, lines.len() as int);
    if idx.len() == 0 {
        "packed in "@ + decimal(bags as int) + " bag(s)"@
    } else {
        "packed in "@ + decimal(bags as int) + " bag(s)"@ + "; missing "@ + missing_text(lines, idx)
    }
}

/// Sum of `unit price * quantity ordered` over the first `k` lines.
pub open spec fn ordered_total(lines: Seq<PickLineRow>, k: int) -> int
    decreases k,
{
    if k <= 0 {
        0
    } else {
        ordered_total(lines, k - 1) + lines[k - 1].unit_price_paise * lines[k - 1].quantity
    }
}

/// Packing bills what was found, which is never more than what was ordered:
/// with non-negative prices and counts within the ordered quantities, the
/// packed item total is at most the ordered one.
pub proof fn lemma_pack_bill_within_order(lines: Seq<PickLineRow>, k: int)
    requires
        0 <= k <= lines.len(),
        forall|i: int| 0 <= i < lines.len() ==> 0 <= (#[trigger] lines[i]).unit_price_paise,
        forall|i: int| 0 <= i < lines.len() ==> 0 <= found(#[trigger] lines[i]) <= lines[i].quantity,
    ensures
        lines_total(picked_prices(lines, k, false), k) <= ordered_total(lines, k),
    decreases k,
{
    if k > 0 {
        lemma_pack_bill_within_order(lines, k - 1);
        let prev = picked_prices(lines, k - 1, false);
        let cur = picked_prices(lines, k, false);
        lemma_picked_prices_len(lines, k - 1, false);
        lemma_total_prefix(prev, cur, k - 1);
        let l = lines[k - 1];
        let p = l.unit_price_paise as int;
        let f = found(l);
        let q = l.quantity as int;
        assert(0 <= p && 0 <= f <= q);
        assert(p * f <= p * q) by (nonlinear_arith)
            requires
                0 <= p,
                f <= q,
        ;
        assert(cur[k - 1] == (l.unit_price_paise, f as i32));
    }
}

proof fn lemma_picked_prices_len(lines: Seq<PickLineRow>, k: int, mrp: bool)
    requires
        0 <= k,
    ensures
        picked_prices(lines, k, mrp).len() == k,
    decreases k,
{
    if k > 0 {
        lemma_picked_prices_len(lines, k - 1, mrp);
    }
}

/// What packing records.
pub struct PackPlan {
    /// The customer is billed for what was found.
    pub item_total_paise: i64,
    pub mrp_total_paise: i64,
    /// Products found short: their shelves are zeroed.
    pub short_products: Vec<u128>,
    pub note: String,
    /// The staging slot, trimmed; `None` when blank.
    pub staging_slot: Option<String>,
}

/// The numbers packing computes fit their integer types.
pub open spec fn pack_fits(lines: Seq<PickLineRow>) -> bool {
    &&& lines_total_fits(picked_prices(lines, lines.len() as int, false))
    &&& lines_total_fits(picked_prices(lines, lines.len() as int, true))
    &&& forall|i: int| 0 <= i < lines.len() ==> i64::MIN <= (#[trigger] lines[i]).quantity - found(lines[i]) <= i64::MAX
}

fn price_list(lines: &[PickLineRow], mrp: bool) -> (v: Vec<(i64, i32)>)
    ensures
        v@ == picked_prices(lines@, lines@.len() as int, mrp),
        v@.len() == lines@.len(),
{
    let mut v: Vec<(i64, i32)> = Vec::new();
    let mut i: usize = 0;
    while i < lines.len()
        invariant
            i <= lines.len(),
            v@ == picked_prices(lines@, i as int, mrp),
            v@.len() == i,
        decreases lines.len() - i,
    {
        let l = &lines[i];
        let p = if mrp {
            l.unit_mrp_paise
        } else {
            l.unit_price_paise
        };
        let f: i32 = match l.picked_quantity {
            Some(q) => q,
            None => 0,
        };
        v.push((p, f));
        i = i + 1;
    }
    v
}

/// Appends the decimal text of `n`.
pub fn append_number(s: &mut String, n: i64)
    ensures
        final(s)@ == old(s)@ + decimal(n as int),
{
    let d = decimal_chars(n);
    let ghost start = s@;
    let mut i: usize = 0;
    while i < d.len()
        invariant
            i <= d.len(),
            s@ == start + d@.take(i as int),
        decreases d.len() - i,
    {
        push_char(s, d[i]);
        assert(d@.take(i as int + 1) =~= d@.take(i as int).push(d@[i as int]));
        i = i + 1;
    }
    assert(d@.take(d@.len() as int) =~= d@);
}

fn pack_note_text(lines: &[PickLineRow], bags: i32) -> (note: String)
    requires
        pack_fits(lines@),
    ensures
        note@ == pack_note(lines@, bags),
{
    let mut note = String::from_str("packed in ");
    append_number(&mut note, bags as i64);
    note.append(" bag(s)");
    let ghost head = note@;
    let mut first = true;
    let mut i: usize = 0;
    while i < lines.len()
        invariant
            i <= lines.len(),
            pack_fits(lines@),
            head == "packed in "@ + decimal(bags as int) + " bag(s)"@,
            first == (short_lines(lines@, i as int).len() == 0),
            first ==> note@ == head,
            !first ==> note@ == head + "; missing "@ + missing_text(lines@, short_lines(lines@, i as int)),
        decreases lines.len() - i,
    {
        let l = &lines[i];
        let f: i32 = match l.picked_quantity {
            Some(q) => q,
            None => 0,
        };
        if f < l.quantity {
            let ghost before = note@;
            if first {
                note.append("; missing ");
            } else {
                note.append(", ");
            }
            assert(i64::MIN <= lines@[i as int].quantity - found(lines@[i as int]) <= i64::MAX);
            let missing: i64 = (l.quantity as i64) - (f as i64);
            append_number(&mut note, missing);
            push_char(&mut note, '\u{d7}');
            push_char(&mut note, ' ');
            note.append(l.name.as_str());
            let ghost idx = short_lines(lines@, i as int + 1);
            assert(idx.drop_last() =~= short_lines(lines@, i as int));
            assert(idx.last() == i);
            assert(note@ =~= head + "; missing "@ + missing_text(lines@, idx));
            first = false;
        }
        i = i + 1;
    }
    note
}

pub open spec fn string_opt(o: Option<String>) -> Option<Seq<char>> {
    match o {
        Some(s) => Some(s@),
        None => None,
    }
}

pub open spec fn str_opt(o: Option<&str>) -> Option<Seq<char>> {
    match o {
        Some(s) => Some(s@),
        None => None,
    }
}

/// Packing: every line counted, something found; the bill becomes what was
/// found, short lines are listed, and the staging slot is trimmed.
pub fn plan_pack(lines: &[PickLineRow], bags: i32, staging_slot: Option<&str>) -> (r: Result<PackPlan, PickError>)
    requires
        all_counted(lines@) ==> pack_fits(lines@),
    ensures
        !all_counted(lines@) ==> r == Err::<PackPlan, PickError>(PickError::NotAllCounted),
        all_counted(lines@) && lines_total(picked_prices(lines@, lines@.len() as int, false), lines@.len() as int) == 0
            ==> r == Err::<PackPlan, PickError>(PickError::NothingPicked),
        all_counted(lines@) && lines_total(picked_prices(lines@, lines@.len() as int, false), lines@.len() as int) != 0
            ==> (r matches Ok(p) && {
            &&& p.item_total_paise == lines_total(picked_prices(lines@, lines@.len() as int, false), lines@.len() as int)
            &&& p.mrp_total_paise == lines_total(picked_prices(lines@, lines@.len() as int, true), lines@.len() as int)
            &&& p.short_products@ == short_lines(lines@, lines@.len() as int).map_values(|i: int| lines@[i].product_id)
            &&& p.note@ == pack_note(lines@, bags)
            &&& string_opt(p.staging_slot) == non_blank(str_opt(staging_slot))
        }),
{
    let mut i: usize = 0;
    while i < lines.len()
        invariant
            i <= lines.len(),
            forall|j: int| 0 <= j < i ==> (#[trigger] lines@[j]).picked_quantity is Some,
        decreases lines.len() - i,
    {
        if lines[i].picked_quantity.is_none() {
            return Err(PickError::NotAllCounted);
        }
        i = i + 1;
    }
    assert(all_counted(lines@));
    let prices = price_list(lines, false);
    let mrps = price_list(lines, true);
    let item_total = total_of_lines(prices.as_slice());
    let mrp_total = total_of_lines(mrps.as_slice());
    if item_total == 0 {
        return Err(PickError::NothingPicked);
    }
    let mut short_products: Vec<u128> = Vec::new();
    let mut k: usize = 0;
    while k < lines.len()
        invariant
            k <= lines.len(),
            short_products@ == short_lines(lines@, k as int).map_values(|i: int| lines@[i].product_id),
        decreases lines.len() - k,
    {
        let l = &lines[k];
        let f: i32 = match l.picked_quantity {
            Some(q) => q,
            None => 0,
        };
        if f < l.quantity {
            short_products.push(l.product_id);
            assert(short_lines(lines@, k as int + 1).map_values(|i: int| lines@[i].product_id) =~= short_lines(lines@, k as int).map_values(|i: int| lines@[i].product_id).push(l.product_id));
        }
        k = k + 1;
    }
    let note = pack_note_text(lines, bags);
    let slot = match staging_slot {
        Some(s) => {
            let t = trim(s);
            if t.is_empty() {
                None
            } else {
                Some(String::from_str(t))
            }
        },
        None => None,
    };
    Ok(PackPlan { item_total_paise: item_total, mrp_total_paise: mrp_total, short_products, note, staging_slot: slot })
}

} // verus!
