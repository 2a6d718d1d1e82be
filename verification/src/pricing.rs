//! Bill rules. All amounts in paise.

use vstd::prelude::*;

verus! {

/// Item totals at or above this (199 rupees) ship free.
pub const FREE_DELIVERY_ABOVE_PAISE: i64 = 19_900;

/// Otherwise delivery costs 30 rupees.
pub const DELIVERY_FEE_PAISE: i64 = 3_000;

/// What the customer pays, line items and delivery.
pub struct BillSummary {
    pub item_total_paise: i64,
    pub mrp_total_paise: i64,
    pub delivery_fee_paise: i64,
    pub total_paise: i64,
    pub free_delivery_above_paise: i64,
}

/// The delivery fee charged on an item total: nothing for an empty cart or
/// from the free-delivery threshold on, the flat fee below it.
pub open spec fn delivery_fee(item_total: int) -> int {
    if item_total == 0 || item_total >= FREE_DELIVERY_ABOVE_PAISE {
        0
    } else {
        DELIVERY_FEE_PAISE as int
    }
}

/// The bill for an item total and its MRP total.
pub fn bill(item_total_paise: i64, mrp_total_paise: i64) -> (b: BillSummary)
    ensures
        b.item_total_paise == item_total_paise,
        b.mrp_total_paise == mrp_total_paise,
        b.delivery_fee_paise == delivery_fee(item_total_paise as int),
        b.total_paise == item_total_paise + b.delivery_fee_paise,
        b.free_delivery_above_paise == FREE_DELIVERY_ABOVE_PAISE,
{
    let delivery_fee_paise: i64 = if item_total_paise == 0 || item_total_paise
        >= FREE_DELIVERY_ABOVE_PAISE {
        0
    } else {
        DELIVERY_FEE_PAISE
    };
    BillSummary {
        item_total_paise,
        mrp_total_paise,
        delivery_fee_paise,
        total_paise: item_total_paise + delivery_fee_paise,
        free_delivery_above_paise: FREE_DELIVERY_ABOVE_PAISE,
    }
}

/// Sum of `unit price * quantity` over the first `k` lines.
pub open spec fn lines_total(lines: Seq<(i64, i32)>, k: int) -> int
    decreases k,
{
    if k <= 0 {
        0
    } else {
        lines_total(lines, k - 1) + lines[k - 1].0 * lines[k - 1].1
    }
}

/// Sums over a common prefix agree.
pub proof fn lemma_total_prefix(a: Seq<(i64, i32)>, b: Seq<(i64, i32)>, j: int)
    requires
        0 <= j <= a.len() <= b.len(),
        forall|i: int| 0 <= i < a.len() ==> a[i] == b[i],
    ensures
        lines_total(a, j) == lines_total(b, j),
    decreases j,
{
    if j > 0 {
        lemma_total_prefix(a, b, j - 1);
    }
}

/// Every line total and every partial sum of them fits in an `i64`.
pub open spec fn lines_total_fits(lines: Seq<(i64, i32)>) -> bool {
    &&& forall|i: int|
        0 <= i < lines.len() ==> i64::MIN <= #[trigger] lines[i].0 * lines[i].1 <= i64::MAX
    &&& forall|k: int|
        0 <= k <= lines.len() ==> i64::MIN <= #[trigger] lines_total(lines, k) <= i64::MAX
}

/// Sum of `unit price * quantity` over `(unit price, quantity)` lines.
pub fn total_of_lines(lines: &[(i64, i32)]) -> (total: i64)
    requires
        lines_total_fits(lines@),
    ensures
        total == lines_total(lines@, lines@.len() as int),
{
    let mut total: i64 = 0;
    let mut i: usize = 0;
    while i < lines.len()
        invariant
            i <= lines.len(),
            lines_total_fits(lines@),
            total == lines_total(lines@, i as int),
        decreases lines.len() - i,
    {
        let (price, qty) = lines[i];
        assert(i64::MIN <= lines_total(lines@, i as int + 1) <= i64::MAX);
        assert(i64::MIN <= lines@[i as int].0 * lines@[i as int].1 <= i64::MAX);
        let line: i64 = price * (qty as i64);
        total = total + line;
        i = i + 1;
    }
    total
}

} // verus!
