//! Assigning packed orders to riders: who is offered an order, and when.
//!
//! An order that reaches PACKED is offered to the nearest few available
//! riders of its store at once (a "wave"). The first to accept wins.
//! Declined or expired waves move on to riders not yet tried; when everyone
//! has been tried the list resets.

use vstd::prelude::*;
use vstd::string::*;
use crate::order::{OrderStatus, PaymentMethod, PaymentStatus};

verus! {

/// An order as a rider sees it before and during delivery (locations in app
/// code).
pub struct DeliveryInfo {
    pub order_id: u128,
    pub number: i64,
    pub store_id: u128,
    pub store_name: String,
    pub store_address: String,
    pub customer_phone: String,
    pub item_count: i32,
    pub bag_count: Option<i32>,
    pub staging_slot: Option<String>,
    pub payment_method: PaymentMethod,
    pub payment_status: PaymentStatus,
    pub total_paise: i64,
    pub status: OrderStatus,
}

/// Cash is due at the door for an unpaid cash-on-delivery order.
pub open spec fn cash_due(method: PaymentMethod, payment: PaymentStatus) -> bool {
    method == PaymentMethod::Cod && payment != PaymentStatus::Paid
}

/// Cash the rider collects at the door.
pub fn collect_paise(info: &DeliveryInfo) -> (c: i64)
    ensures
        c == (if cash_due(info.payment_method, info.payment_status) {
            info.total_paise
        } else {
            0
        }),
{
    if info.payment_method == PaymentMethod::Cod && info.payment_status != PaymentStatus::Paid {
        info.total_paise
    } else {
        0
    }
}

/// Where an offer's drop is, as shown to riders: `"{city}, {pincode}"`.
pub fn drop_area(city: &str, pincode: &str) -> (a: String)
    ensures
        a@ == city@ + ", "@ + pincode@,
{
    let mut a = String::from_str(city);
    a.append(", ");
    a.append(pincode);
    a
}

/// An order is offered only while packed, unclaimed, without an open wave
/// and without an active delivery.
pub fn should_dispatch(status: OrderStatus, has_winner: bool, wave_open: bool, has_delivery: bool) -> (b: bool)
    ensures
        b == (status == OrderStatus::Packed && !has_winner && !wave_open && !has_delivery),
{
    status == OrderStatus::Packed && !has_winner && !wave_open && !has_delivery
}

/// Riders among the first `k` nearby ones (nearest first) that are online
/// and not on a delivery.
pub open spec fn available_riders(nearby: Seq<u128>, online: Seq<u128>, busy: Seq<u128>, k: int) -> Seq<u128>
    decreases k,
{
    if k <= 0 {
        Seq::empty()
    } else {
        let r = nearby[k - 1];
        let rest = available_riders(nearby, online, busy, k - 1);
        if online.contains(r) && !busy.contains(r) {
            rest.push(r)
        } else {
            rest
        }
    }
}

/// Riders among the first `k` of `riders` not tried yet.
pub open spec fn untried(riders: Seq<u128>, tried: Seq<u128>, k: int) -> Seq<u128>
    decreases k,
{
    if k <= 0 {
        Seq::empty()
    } else {
        let r = riders[k - 1];
        let rest = untried(riders, tried, k - 1);
        if !tried.contains(r) {
            rest.push(r)
        } else {
            rest
        }
    }
}

/// The first `n` of `s` (all of it if shorter).
pub open spec fn first_n(s: Seq<u128>, n: int) -> Seq<u128> {
    if s.len() <= n {
        s
    } else {
        s.take(n)
    }
}

/// The next wave of an order.
pub struct Wave {
    /// The riders to offer it to, nearest first.
    pub riders: Vec<u128>,
    /// Everyone available has passed on it: start the tried list over.
    pub reset_tried: bool,
}

fn contains(v: &[u128], x: u128) -> (b: bool)
    ensures
        b == v@.contains(x),
{
    let mut i: usize = 0;
    while i < v.len()
        invariant
            i <= v.len(),
            forall|j: int| 0 <= j < i ==> v@[j] != x,
        decreases v.len() - i,
    {
        if v[i] == x {
            return true;
        }
        i = i + 1;
    }
    false
}

/// The next wave: the nearest available riders not yet tried, at most
/// `wave_size` of them (at least one).
pub fn next_wave(nearby: &[u128], online: &[u128], busy: &[u128], tried: &[u128], wave_size: usize) -> (w: Wave)
    ensures
        ({
            let avail = available_riders(nearby@, online@, busy@, nearby@.len() as int);
            let fresh = untried(avail, tried@, avail.len() as int);
            let size = if wave_size == 0 { 1 } else { wave_size as int };
            &&& w.riders@ == first_n(fresh, size)
            &&& w.reset_tried == (fresh.len() == 0 && avail.len() > 0)
        }),
{
    let mut avail: Vec<u128> = Vec::new();
    let mut i: usize = 0;
    while i < nearby.len()
        invariant
            i <= nearby.len(),
            avail@ == available_riders(nearby@, online@, busy@, i as int),
        decreases nearby.len() - i,
    {
        let r = nearby[i];
        if contains(online, r) && !contains(busy, r) {
            avail.push(r);
        }
        i = i + 1;
    }
    let size: usize = if wave_size == 0 {
        1
    } else {
        wave_size
    };
    let mut fresh: Vec<u128> = Vec::new();
    let mut j: usize = 0;
    while j < avail.len()
        invariant
            j <= avail.len(),
            fresh@ == untried(avail@, tried@, j as int),
        decreases avail.len() - j,
    {
        let r = avail[j];
        if !contains(tried, r) {
            fresh.push(r);
        }
        j = j + 1;
    }
    let reset = fresh.len() == 0 && avail.len() > 0;
    if fresh.len() > size {
        fresh.truncate(size);
    }
    Wave { riders: fresh, reset_tried: reset }
}

/// A wave is as large as it can be: the nearest `max(wave_size, 1)` of the
/// available untried riders, or all of them when there are fewer, in order
/// of distance.
pub proof fn lemma_wave_takes_the_nearest(
    nearby: Seq<u128>,
    online: Seq<u128>,
    busy: Seq<u128>,
    tried: Seq<u128>,
    wave_size: usize,
)
    ensures
        ({
            let avail = available_riders(nearby, online, busy, nearby.len() as int);
            let fresh = untried(avail, tried, avail.len() as int);
            let size = if wave_size == 0 { 1 } else { wave_size as int };
            let wave = first_n(fresh, size);
            &&& wave.len() == (if fresh.len() < size { fresh.len() as int } else { size })
            &&& forall|i: int| 0 <= i < wave.len() ==> #[trigger] wave[i] == fresh[i]
        }),
{
}

/// Every rider in a wave is online, free and not tried yet.
pub proof fn lemma_wave_riders_eligible(nearby: Seq<u128>, online: Seq<u128>, busy: Seq<u128>, tried: Seq<u128>, r: u128)
    requires
        untried(available_riders(nearby, online, busy, nearby.len() as int), tried,
            available_riders(nearby, online, busy, nearby.len() as int).len() as int).contains(r),
    ensures
        online.contains(r),
        !busy.contains(r),
        !tried.contains(r),
        nearby.contains(r),
{
    let avail = available_riders(nearby, online, busy, nearby.len() as int);
    lemma_untried_members(avail, tried, avail.len() as int, r);
    lemma_available_members(nearby, online, busy, nearby.len() as int, r);
}

proof fn lemma_untried_members(riders: Seq<u128>, tried: Seq<u128>, k: int, r: u128)
    requires
        0 <= k <= riders.len(),
        untried(riders, tried, k).contains(r),
    ensures
        riders.contains(r),
        !tried.contains(r),
    decreases k,
{
    let rest = untried(riders, tried, k - 1);
    let x = riders[k - 1];
    if rest.contains(r) {
        lemma_untried_members(riders, tried, k - 1, r);
    } else {
        let s = untried(riders, tried, k);
        let i = choose|i: int| 0 <= i < s.len() && s[i] == r;
        if i < rest.len() {
            assert(rest[i] == r);
        }
        assert(r == x);
        assert(riders[k - 1] == r);
    }
}

proof fn lemma_available_members(nearby: Seq<u128>, online: Seq<u128>, busy: Seq<u128>, k: int, r: u128)
    requires
        0 <= k <= nearby.len(),
        available_riders(nearby, online, busy, k).contains(r),
    ensures
        nearby.contains(r),
        online.contains(r),
        !busy.contains(r),
    decreases k,
{
    let rest = available_riders(nearby, online, busy, k - 1);
    if rest.contains(r) {
        lemma_available_members(nearby, online, busy, k - 1, r);
    } else {
        let s = available_riders(nearby, online, busy, k);
        let i = choose|i: int| 0 <= i < s.len() && s[i] == r;
        if i < rest.len() {
            assert(rest[i] == r);
        }
        assert(nearby[k - 1] == r);
    }
}

/// When an offer expires: `now` plus its time to live.
pub fn offer_expiry(now_ms: i64, ttl_ms: i64) -> (at: i64)
    requires
        i64::MIN <= now_ms + ttl_ms <= i64::MAX,
    ensures
        at == now_ms + ttl_ms,
{
    now_ms + ttl_ms
}

/// A decline that leaves nobody on the wave re-dispatches at once.
pub fn redispatch_after_decline(riders_left: u64) -> (b: bool)
    ensures
        b == (riders_left == 0),
{
    riders_left == 0
}

} // verus!
