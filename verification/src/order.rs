//! Orders: the status state machine, cancellation, and what a customer sees.

use vstd::prelude::*;
use vstd::string::*;
use crate::pricing::{bill, BillSummary};
use crate::text::{trim, trimmed};

verus! {

/// Where an order is in its life.
#[derive(Clone, Copy, PartialEq, Eq, Structural, Debug)]
pub enum OrderStatus {
    Placed,
    Confirmed,
    Picking,
    Packed,
    RiderAssigned,
    PickedUp,
    OutForDelivery,
    Delivered,
    PartiallyFulfilled,
    Cancelled,
}

/// How the customer pays.
#[derive(Clone, Copy, PartialEq, Eq, Structural, Debug)]
pub enum PaymentMethod {
    Cod,
    Online,
}

/// Where the payment stands.
#[derive(Clone, Copy, PartialEq, Eq, Structural, Debug)]
pub enum PaymentStatus {
    Pending,
    Paid,
    Failed,
    Refunded,
}

/// The state machine: the status changes an order may go through.
pub open spec fn transition_allowed(from: OrderStatus, to: OrderStatus) -> bool {
    match to {
        OrderStatus::Placed => false,
        OrderStatus::Confirmed => from == OrderStatus::Placed || from == OrderStatus::Picking,
        OrderStatus::Picking => from == OrderStatus::Confirmed,
        OrderStatus::Packed => from == OrderStatus::Picking || from == OrderStatus::RiderAssigned,
        OrderStatus::RiderAssigned => from == OrderStatus::Packed,
        OrderStatus::PickedUp => from == OrderStatus::RiderAssigned,
        OrderStatus::OutForDelivery => from == OrderStatus::PickedUp,
        OrderStatus::Delivered => from == OrderStatus::OutForDelivery,
        OrderStatus::PartiallyFulfilled => from == OrderStatus::OutForDelivery,
        OrderStatus::Cancelled => cancellable_status(from),
    }
}

/// Statuses an order can still be cancelled from (before the rider has it).
pub open spec fn cancellable_status(s: OrderStatus) -> bool {
    s == OrderStatus::Placed || s == OrderStatus::Confirmed || s == OrderStatus::Picking || s
        == OrderStatus::Packed || s == OrderStatus::RiderAssigned
}

/// Finished orders: nothing happens to them any more.
pub open spec fn terminal(s: OrderStatus) -> bool {
    s == OrderStatus::Delivered || s == OrderStatus::PartiallyFulfilled || s
        == OrderStatus::Cancelled
}

/// A customer may cancel until the store starts picking.
pub open spec fn customer_may_cancel(s: OrderStatus) -> bool {
    s == OrderStatus::Placed || s == OrderStatus::Confirmed
}

pub open spec fn status_name(s: OrderStatus) -> Seq<char> {
    match s {
        OrderStatus::Placed => "PLACED"@,
        OrderStatus::Confirmed => "CONFIRMED"@,
        OrderStatus::Picking => "PICKING"@,
        OrderStatus::Packed => "PACKED"@,
        OrderStatus::RiderAssigned => "RIDER_ASSIGNED"@,
        OrderStatus::PickedUp => "PICKED_UP"@,
        OrderStatus::OutForDelivery => "OUT_FOR_DELIVERY"@,
        OrderStatus::Delivered => "DELIVERED"@,
        OrderStatus::PartiallyFulfilled => "PARTIALLY_FULFILLED"@,
        OrderStatus::Cancelled => "CANCELLED"@,
    }
}

impl OrderStatus {
    /// The status's wire name.
    pub fn as_str(&self) -> (s: &'static str)
        ensures
            s@ == status_name(*self),
    {
        match self {
            OrderStatus::Placed => "PLACED",
            OrderStatus::Confirmed => "CONFIRMED",
            OrderStatus::Picking => "PICKING",
            OrderStatus::Packed => "PACKED",
            OrderStatus::RiderAssigned => "RIDER_ASSIGNED",
            OrderStatus::PickedUp => "PICKED_UP",
            OrderStatus::OutForDelivery => "OUT_FOR_DELIVERY",
            OrderStatus::Delivered => "DELIVERED",
            OrderStatus::PartiallyFulfilled => "PARTIALLY_FULFILLED",
            OrderStatus::Cancelled => "CANCELLED",
        }
    }

    /// Delivered, partially fulfilled or cancelled.
    pub fn is_terminal(&self) -> (b: bool)
        ensures
            b == terminal(*self),
    {
        match self {
            OrderStatus::Delivered | OrderStatus::PartiallyFulfilled | OrderStatus::Cancelled => true,
            _ => false,
        }
    }

    /// Placed or confirmed: the customer may still cancel.
    pub fn customer_cancellable(&self) -> (b: bool)
        ensures
            b == customer_may_cancel(*self),
    {
        match self {
            OrderStatus::Placed | OrderStatus::Confirmed => true,
            _ => false,
        }
    }

    /// Whether the state machine allows `from -> to`.
    pub fn can_become(from: OrderStatus, to: OrderStatus) -> (b: bool)
        ensures
            b == transition_allowed(from, to),
    {
        match to {
            OrderStatus::Placed => false,
            OrderStatus::Confirmed => from == OrderStatus::Placed || from == OrderStatus::Picking,
            OrderStatus::Picking => from == OrderStatus::Confirmed,
            OrderStatus::Packed => from == OrderStatus::Picking || from
                == OrderStatus::RiderAssigned,
            OrderStatus::RiderAssigned => from == OrderStatus::Packed,
            OrderStatus::PickedUp => from == OrderStatus::RiderAssigned,
            OrderStatus::OutForDelivery => from == OrderStatus::PickedUp,
            OrderStatus::Delivered => from == OrderStatus::OutForDelivery,
            OrderStatus::PartiallyFulfilled => from == OrderStatus::OutForDelivery,
            OrderStatus::Cancelled => from == OrderStatus::Placed || from
                == OrderStatus::Confirmed || from == OrderStatus::Picking || from
                == OrderStatus::Packed || from == OrderStatus::RiderAssigned,
        }
    }

    /// The statuses an order may move to `to` from (each once).
    pub fn predecessors(to: OrderStatus) -> (v: Vec<OrderStatus>)
        ensures
            v@ == predecessor_list(to),
            forall|s: OrderStatus| v@.contains(s) <==> transition_allowed(s, to),
            v@.no_duplicates(),
    {
        proof {
            lemma_predecessor_list(to);
        }
        let v = match to {
            OrderStatus::Placed => vec![],
            OrderStatus::Confirmed => vec![OrderStatus::Placed, OrderStatus::Picking],
            OrderStatus::Picking => vec![OrderStatus::Confirmed],
            OrderStatus::Packed => vec![OrderStatus::Picking, OrderStatus::RiderAssigned],
            OrderStatus::RiderAssigned => vec![OrderStatus::Packed],
            OrderStatus::PickedUp => vec![OrderStatus::RiderAssigned],
            OrderStatus::OutForDelivery => vec![OrderStatus::PickedUp],
            OrderStatus::Delivered => vec![OrderStatus::OutForDelivery],
            OrderStatus::PartiallyFulfilled => vec![OrderStatus::OutForDelivery],
            OrderStatus::Cancelled => vec![
                OrderStatus::Placed,
                OrderStatus::Confirmed,
                OrderStatus::Picking,
                OrderStatus::Packed,
                OrderStatus::RiderAssigned,
            ],
        };
        assert(v@ =~= predecessor_list(to));
        v
    }
}

/// The statuses an order may move to `to` from, in a fixed order.
pub open spec fn predecessor_list(to: OrderStatus) -> Seq<OrderStatus> {
    match to {
        OrderStatus::Placed => seq![],
        OrderStatus::Confirmed => seq![OrderStatus::Placed, OrderStatus::Picking],
        OrderStatus::Picking => seq![OrderStatus::Confirmed],
        OrderStatus::Packed => seq![OrderStatus::Picking, OrderStatus::RiderAssigned],
        OrderStatus::RiderAssigned => seq![OrderStatus::Packed],
        OrderStatus::PickedUp => seq![OrderStatus::RiderAssigned],
        OrderStatus::OutForDelivery => seq![OrderStatus::PickedUp],
        OrderStatus::Delivered => seq![OrderStatus::OutForDelivery],
        OrderStatus::PartiallyFulfilled => seq![OrderStatus::OutForDelivery],
        OrderStatus::Cancelled => seq![
            OrderStatus::Placed,
            OrderStatus::Confirmed,
            OrderStatus::Picking,
            OrderStatus::Packed,
            OrderStatus::RiderAssigned,
        ],
    }
}

/// The list holds exactly the statuses the state machine allows, once each.
pub proof fn lemma_predecessor_list(to: OrderStatus)
    ensures
        forall|s: OrderStatus| predecessor_list(to).contains(s) <==> transition_allowed(s, to),
        predecessor_list(to).no_duplicates(),
{
    let q = predecessor_list(to);
    assert forall|k: int| 0 <= k < q.len() implies transition_allowed(#[trigger] q[k], to) by {
        if k == 0 {
        } else if k == 1 {
        } else if k == 2 {
        } else if k == 3 {
        } else {
        }
    }
    assert forall|a: int, b: int| 0 <= a < q.len() && 0 <= b < q.len() && a != b implies q[a]
        != q[b] by {
        if a == 0 {
        } else if a == 1 {
        } else if a == 2 {
        } else if a == 3 {
        } else {
        }
    }
    assert forall|s: OrderStatus| transition_allowed(s, to) implies q.contains(s) by {
        if q.len() > 0 && q[0] == s {
        } else if q.len() > 1 && q[1] == s {
        } else if q.len() > 2 && q[2] == s {
        } else if q.len() > 3 && q[3] == s {
        } else {
            assert(q[4] == s);
        }
    }
}

/// A finished order never changes status again.
pub proof fn lemma_terminal_is_final(s: OrderStatus, t: OrderStatus)
    requires
        terminal(s),
    ensures
        !transition_allowed(s, t),
{
}

/// Only checkout creates a placed order: no status change leads back to it.
pub proof fn lemma_placed_only_at_checkout(s: OrderStatus)
    ensures
        !transition_allowed(s, OrderStatus::Placed),
{
}

/// Whatever a customer may cancel, the state machine lets be cancelled.
pub proof fn lemma_customer_cancel_allowed(s: OrderStatus)
    requires
        customer_may_cancel(s),
    ensures
        transition_allowed(s, OrderStatus::Cancelled),
{
}

/// Once the rider has picked the order up it can only be delivered.
pub proof fn lemma_no_cancel_after_pickup(s: OrderStatus, t: OrderStatus)
    requires
        s == OrderStatus::PickedUp || s == OrderStatus::OutForDelivery,
        transition_allowed(s, t),
    ensures
        t == OrderStatus::OutForDelivery || t == OrderStatus::Delivered || t
            == OrderStatus::PartiallyFulfilled,
{
}

/// A status change made by one of the service operations.
#[derive(Clone, Copy, PartialEq, Eq, Structural, Debug)]
pub enum Step {
    /// Payment secured (or cash on delivery): PLACED -> CONFIRMED.
    Confirm { paid: bool },
    /// A picker claims the order: CONFIRMED -> PICKING.
    StartPicking,
    /// The picker hands it back: PICKING -> CONFIRMED.
    ReturnToQueue,
    /// Packed and staged: PICKING -> PACKED.
    Pack,
    /// A rider accepts the offer: PACKED -> RIDER_ASSIGNED.
    AssignRider,
    /// The rider drops the job before pickup: RIDER_ASSIGNED -> PACKED.
    DropRider,
    /// The rider collects the bags: RIDER_ASSIGNED -> PICKED_UP.
    PickUp,
    /// The rider leaves the store: PICKED_UP -> OUT_FOR_DELIVERY.
    Depart { left_store: bool },
    /// Handed over: OUT_FOR_DELIVERY -> DELIVERED or PARTIALLY_FULFILLED.
    Deliver { short: bool },
}

pub open spec fn step_source(step: Step) -> OrderStatus {
    match step {
        Step::Confirm { .. } => OrderStatus::Placed,
        Step::StartPicking => OrderStatus::Confirmed,
        Step::ReturnToQueue => OrderStatus::Picking,
        Step::Pack => OrderStatus::Picking,
        Step::AssignRider => OrderStatus::Packed,
        Step::DropRider => OrderStatus::RiderAssigned,
        Step::PickUp => OrderStatus::RiderAssigned,
        Step::Depart { .. } => OrderStatus::PickedUp,
        Step::Deliver { .. } => OrderStatus::OutForDelivery,
    }
}

pub open spec fn step_target(step: Step) -> OrderStatus {
    match step {
        Step::Confirm { .. } => OrderStatus::Confirmed,
        Step::StartPicking => OrderStatus::Picking,
        Step::ReturnToQueue => OrderStatus::Confirmed,
        Step::Pack => OrderStatus::Packed,
        Step::AssignRider => OrderStatus::RiderAssigned,
        Step::DropRider => OrderStatus::Packed,
        Step::PickUp => OrderStatus::PickedUp,
        Step::Depart { .. } => OrderStatus::OutForDelivery,
        Step::Deliver { short } => if short {
            OrderStatus::PartiallyFulfilled
        } else {
            OrderStatus::Delivered
        },
    }
}

pub open spec fn step_note(step: Step) -> Seq<char> {
    match step {
        Step::Confirm { paid } => if paid {
            "payment received"@
        } else {
            "cash on delivery"@
        },
        Step::StartPicking => "picking started"@,
        Step::ReturnToQueue => "returned to the queue"@,
        Step::Pack => "packed"@,
        Step::AssignRider => "rider accepted"@,
        Step::DropRider => "rider dropped the order"@,
        Step::PickUp => "picked up"@,
        Step::Depart { left_store } => if left_store {
            "left the store"@
        } else {
            "on the way"@
        },
        Step::Deliver { .. } => "delivered"@,
    }
}

impl Step {
    /// The only status this step starts from.
    pub fn source(&self) -> (s: OrderStatus)
        ensures
            s == step_source(*self),
    {
        match self {
            Step::Confirm { .. } => OrderStatus::Placed,
            Step::StartPicking => OrderStatus::Confirmed,
            Step::ReturnToQueue => OrderStatus::Picking,
            Step::Pack => OrderStatus::Picking,
            Step::AssignRider => OrderStatus::Packed,
            Step::DropRider => OrderStatus::RiderAssigned,
            Step::PickUp => OrderStatus::RiderAssigned,
            Step::Depart { .. } => OrderStatus::PickedUp,
            Step::Deliver { .. } => OrderStatus::OutForDelivery,
        }
    }

    /// The status this step leads to.
    pub fn target(&self) -> (s: OrderStatus)
        ensures
            s == step_target(*self),
    {
        match self {
            Step::Confirm { .. } => OrderStatus::Confirmed,
            Step::StartPicking => OrderStatus::Picking,
            Step::ReturnToQueue => OrderStatus::Confirmed,
            Step::Pack => OrderStatus::Packed,
            Step::AssignRider => OrderStatus::RiderAssigned,
            Step::DropRider => OrderStatus::Packed,
            Step::PickUp => OrderStatus::PickedUp,
            Step::Depart { .. } => OrderStatus::OutForDelivery,
            Step::Deliver { short } => if *short {
                OrderStatus::PartiallyFulfilled
            } else {
                OrderStatus::Delivered
            },
        }
    }

    /// The note logged with the status event (packing writes its own).
    pub fn note(&self) -> (n: &'static str)
        ensures
            n@ == step_note(*self),
    {
        match self {
            Step::Confirm { paid } => if *paid {
                "payment received"
            } else {
                "cash on delivery"
            },
            Step::StartPicking => "picking started",
            Step::ReturnToQueue => "returned to the queue",
            Step::Pack => "packed",
            Step::AssignRider => "rider accepted",
            Step::DropRider => "rider dropped the order",
            Step::PickUp => "picked up",
            Step::Depart { left_store } => if *left_store {
                "left the store"
            } else {
                "on the way"
            },
            Step::Deliver { .. } => "delivered",
        }
    }
}

/// Every operation moves an order along the state machine.
pub proof fn lemma_steps_follow_state_machine(step: Step)
    ensures
        transition_allowed(step_source(step), step_target(step)),
{
}

/// The refusal of a status change the order's current status does not
/// allow.
pub fn invalid_transition_message(current: OrderStatus, to: OrderStatus) -> (m: String)
    ensures
        m@ == "order is "@ + status_name(current) + " and can't become "@ + status_name(to),
{
    let mut m = String::from_str("order is ");
    m.append(current.as_str());
    m.append(" and can't become ");
    m.append(to.as_str());
    m
}

/// The refusal when confirming finds a line short on the shelf (the order
/// is then cancelled).
pub fn out_of_stock_message(name: &str) -> (m: String)
    ensures
        m@ == name@ + " went out of stock; the order was cancelled"@,
{
    let mut m = String::from_str(name);
    m.append(" went out of stock; the order was cancelled");
    m
}

/// The compare-and-set behind every status change: succeeds (returning the
/// previous status) exactly when the current status is one of `from`.
pub fn compare_and_set(current: OrderStatus, from: &[OrderStatus]) -> (prev: Option<OrderStatus>)
    ensures
        prev == (if from@.contains(current) {
            Some(current)
        } else {
            None::<OrderStatus>
        }),
{
    let mut i: usize = 0;
    while i < from.len()
        invariant
            i <= from.len(),
            forall|k: int| 0 <= k < i ==> from@[k] != current,
        decreases from.len() - i,
    {
        if from[i] == current {
            return Some(current);
        }
        i = i + 1;
    }
    None
}

/// The statuses of `q` that `allowed` holds, in order.
pub open spec fn keep_allowed(q: Seq<OrderStatus>, allowed: Seq<OrderStatus>) -> Seq<OrderStatus>
    decreases q.len(),
{
    if q.len() == 0 {
        Seq::empty()
    } else if allowed.contains(q.last()) {
        keep_allowed(q.drop_last(), allowed).push(q.last())
    } else {
        keep_allowed(q.drop_last(), allowed)
    }
}

proof fn lemma_keep_allowed(q: Seq<OrderStatus>, allowed: Seq<OrderStatus>)
    ensures
        forall|s: OrderStatus| keep_allowed(q, allowed).contains(s) <==> (q.contains(s)
            && allowed.contains(s)),
    decreases q.len(),
{
    if q.len() > 0 {
        lemma_keep_allowed(q.drop_last(), allowed);
        let r = keep_allowed(q, allowed);
        let r0 = keep_allowed(q.drop_last(), allowed);
        assert forall|s: OrderStatus| r.contains(s) <==> (q.contains(s) && allowed.contains(s)) by {
            if r.contains(s) {
                let k = choose|k: int| 0 <= k < r.len() && r[k] == s;
                if k < r0.len() {
                    assert(r0[k] == s);
                    assert(r0.contains(s));
                    let q0 = q.drop_last();
                    assert(q0.contains(s) && allowed.contains(s));
                    let j = choose|j: int| 0 <= j < q0.len() && q0[j] == s;
                    assert(q[j] == s);
                } else {
                    assert(q[q.len() - 1] == s);
                }
            }
            if q.contains(s) && allowed.contains(s) {
                let j = choose|j: int| 0 <= j < q.len() && q[j] == s;
                if j < q.len() - 1 {
                    let q0 = q.drop_last();
                    assert(q0[j] == s);
                    assert(q0.contains(s));
                    assert(r0.contains(s));
                    let k = choose|k: int| 0 <= k < r0.len() && r0[k] == s;
                    assert(r[k] == s);
                } else {
                    assert(r[r.len() - 1] == s);
                }
            }
        }
    }
}

/// The statuses a cancellation may start from: those the caller allows that
/// the state machine also allows.
pub fn cancel_sources(allowed_from: &[OrderStatus]) -> (v: Vec<OrderStatus>)
    ensures
        v@ == keep_allowed(predecessor_list(OrderStatus::Cancelled), allowed_from@),
        forall|s: OrderStatus| v@.contains(s) <==> (allowed_from@.contains(s)
            && transition_allowed(s, OrderStatus::Cancelled)),
{
    let preds = OrderStatus::predecessors(OrderStatus::Cancelled);
    let mut v: Vec<OrderStatus> = Vec::new();
    let mut i: usize = 0;
    while i < preds.len()
        invariant
            i <= preds.len(),
            preds@ == predecessor_list(OrderStatus::Cancelled),
            v@ == keep_allowed(preds@.take(i as int), allowed_from@),
        decreases preds.len() - i,
    {
        let s = preds[i];
        assert(preds@.take(i as int + 1).drop_last() =~= preds@.take(i as int));
        if compare_and_set(s, allowed_from).is_some() {
            v.push(s);
        }
        i = i + 1;
    }
    assert(preds@.take(preds@.len() as int) =~= preds@);
    proof {
        lemma_keep_allowed(preds@, allowed_from@);
        lemma_predecessor_list(OrderStatus::Cancelled);
    }
    v
}

/// An order as the services read it (address and timestamps in app code).
pub struct Order {
    pub id: u128,
    pub number: i64,
    pub user_id: u128,
    pub store_id: u128,
    pub status: OrderStatus,
    pub payment_method: PaymentMethod,
    pub payment_status: PaymentStatus,
    pub item_total_paise: i64,
    pub mrp_total_paise: i64,
    pub delivery_fee_paise: i64,
    pub total_paise: i64,
    pub delivery_otp: String,
    pub gateway_order_id: Option<String>,
    pub cancel_reason: Option<String>,
    pub created_at_ms: i64,
}

/// One line of an order.
pub struct OrderItem {
    pub product_id: u128,
    pub name: String,
    pub quantity: i32,
    pub unit_price_paise: i64,
    pub unit_mrp_paise: i64,
    /// What the picker counted, once they have.
    pub picked_quantity: Option<i32>,
}

/// An order and its unit count, as listed for its customer.
pub struct OrderListRow {
    pub order: Order,
    pub item_count: i32,
}

/// The list entry of an order.
pub struct OrderSummary {
    pub id: u128,
    pub number: i64,
    pub status: OrderStatus,
    pub payment_method: PaymentMethod,
    pub payment_status: PaymentStatus,
    pub total_paise: i64,
    pub item_count: i32,
    pub created_at_ms: i64,
}

/// The list entry of `order` with `item_count` units.
pub fn summary(order: &Order, item_count: i32) -> (s: OrderSummary)
    ensures
        s.id == order.id,
        s.number == order.number,
        s.status == order.status,
        s.payment_method == order.payment_method,
        s.payment_status == order.payment_status,
        s.total_paise == order.total_paise,
        s.item_count == item_count,
        s.created_at_ms == order.created_at_ms,
{
    OrderSummary {
        id: order.id,
        number: order.number,
        status: order.status,
        payment_method: order.payment_method,
        payment_status: order.payment_status,
        total_paise: order.total_paise,
        item_count,
        created_at_ms: order.created_at_ms,
    }
}

/// Units that go back on the shelf for a line: what the picker found once
/// the line was counted, otherwise everything ordered.
pub open spec fn restock_units(item: OrderItem) -> int {
    match item.picked_quantity {
        Some(p) => p as int,
        None => item.quantity as int,
    }
}

/// The `(product, units)` to restock for the first `k` items, skipping lines
/// with nothing to put back.
pub open spec fn restock_list(items: Seq<OrderItem>, k: int) -> Seq<(u128, i32)>
    decreases k,
{
    if k <= 0 {
        Seq::empty()
    } else {
        let i = items[k - 1];
        let rest = restock_list(items, k - 1);
        if restock_units(i) > 0 {
            rest.push((i.product_id, restock_units(i) as i32))
        } else {
            rest
        }
    }
}

/// Units that go back on the shelf when a confirmed order is cancelled. Once
/// a picker has counted a line, only what they found is restocked; units they
/// marked missing were never there.
pub fn restock_quantities(items: &[OrderItem]) -> (v: Vec<(u128, i32)>)
    ensures
        v@ == restock_list(items@, items@.len() as int),
{
    let mut v: Vec<(u128, i32)> = Vec::new();
    let mut i: usize = 0;
    while i < items.len()
        invariant
            i <= items.len(),
            v@ == restock_list(items@, i as int),
        decreases items.len() - i,
    {
        let item = &items[i];
        let qty: i32 = match item.picked_quantity {
            Some(p) => p,
            None => item.quantity,
        };
        if qty > 0 {
            v.push((item.product_id, qty));
        }
        i = i + 1;
    }
    v
}

/// Restocking never puts back more units of a line than were ordered, when
/// the picker's count is within the ordered quantity.
pub proof fn lemma_restock_within_order(items: Seq<OrderItem>, k: int, j: int)
    requires
        0 <= k <= items.len(),
        forall|i: int|
            0 <= i < items.len() ==> match #[trigger] items[i].picked_quantity {
                Some(p) => 0 <= p <= items[i].quantity,
                None => true,
            },
        0 <= j < restock_list(items, k).len(),
    ensures
        exists|i: int|
            0 <= i < k && #[trigger] items[i].product_id == restock_list(items, k)[j].0 && 0
                < restock_list(items, k)[j].1 <= items[i].quantity,
    decreases k,
{
    let rest = restock_list(items, k - 1);
    let it = items[k - 1];
    if j < rest.len() {
        lemma_restock_within_order(items, k - 1, j);
        let i = choose|i: int|
            0 <= i < k - 1 && #[trigger] items[i].product_id == rest[j].0 && 0 < rest[j].1
                <= items[i].quantity;
        assert(restock_list(items, k)[j] == rest[j]);
        assert(items[i].product_id == restock_list(items, k)[j].0);
    } else {
        assert(restock_list(items, k)[j] == (it.product_id, restock_units(it) as i32));
        assert(items[k - 1].product_id == restock_list(items, k)[j].0);
    }
}

/// What a cancellation does besides the status change.
pub struct CancelPlan {
    /// Stock was already taken from the shelf (the order was confirmed), so
    /// it goes back; otherwise the reservation is released.
    pub restock: bool,
    /// The payment status to record, if it changes.
    pub payment_status: Option<PaymentStatus>,
    /// The dispatch claim must be freed (a rider had it, or it was packed).
    pub clear_dispatch: bool,
}

/// What a cancellation does after the status moved from `prev` to
/// cancelled: paid orders are refunded, unpaid online ones fail.
pub fn plan_cancel(prev: OrderStatus, method: PaymentMethod, payment: PaymentStatus, had_rider: bool) -> (p: CancelPlan)
    ensures
        p.restock == (prev != OrderStatus::Placed),
        p.payment_status == (if payment == PaymentStatus::Paid {
            Some(PaymentStatus::Refunded)
        } else if method == PaymentMethod::Online {
            Some(PaymentStatus::Failed)
        } else {
            None::<PaymentStatus>
        }),
        p.clear_dispatch == (had_rider || prev == OrderStatus::Packed),
{
    let payment_status = if payment == PaymentStatus::Paid {
        Some(PaymentStatus::Refunded)
    } else if method == PaymentMethod::Online {
        Some(PaymentStatus::Failed)
    } else {
        None
    };
    CancelPlan {
        restock: prev != OrderStatus::Placed,
        payment_status,
        clear_dispatch: had_rider || prev == OrderStatus::Packed,
    }
}

/// Why a customer's cancellation is refused.
#[derive(Clone, Copy, PartialEq, Eq, Structural, Debug)]
pub enum CustomerCancelError {
    /// Not this customer's order (404, it is not even confirmed to exist).
    NotFound,
    /// Picking has started (409).
    TooLate,
}

/// The message shown for a refused customer cancellation.
pub open spec fn customer_cancel_message(e: CustomerCancelError) -> Seq<char> {
    match e {
        CustomerCancelError::NotFound => "order not found"@,
        CustomerCancelError::TooLate => "the store has started packing this order, so it can't be cancelled"@,
    }
}

impl CustomerCancelError {
    /// The message shown for this error.
    pub fn message(&self) -> (m: &'static str)
        ensures
            m@ == customer_cancel_message(*self),
    {
        match self {
            CustomerCancelError::NotFound => "order not found",
            CustomerCancelError::TooLate => "the store has started packing this order, so it can't be cancelled",
        }
    }
}

/// A customer may cancel their own order before picking starts.
pub fn check_customer_cancel(owner: u128, customer: u128, status: OrderStatus) -> (r: Result<(), CustomerCancelError>)
    ensures
        owner != customer ==> r == Err::<(), CustomerCancelError>(CustomerCancelError::NotFound),
        owner == customer && !customer_may_cancel(status) ==> r == Err::<(), CustomerCancelError>(
            CustomerCancelError::TooLate,
        ),
        owner == customer && customer_may_cancel(status) ==> r is Ok,
{
    if owner != customer {
        return Err(CustomerCancelError::NotFound);
    }
    if !status.customer_cancellable() {
        return Err(CustomerCancelError::TooLate);
    }
    Ok(())
}

/// The reason recorded for a customer's cancellation: theirs, trimmed, or a
/// default when blank.
pub open spec fn customer_reason_text(reason: Option<Seq<char>>) -> Seq<char> {
    match reason {
        Some(r) => if trimmed(r).len() > 0 {
            trimmed(r)
        } else {
            "Cancelled by customer"@
        },
        None => "Cancelled by customer"@,
    }
}

/// The reason recorded for a customer's cancellation.
pub fn customer_reason(reason: Option<&str>) -> (r: &str)
    ensures
        r@ == customer_reason_text(match reason {
            Some(x) => Some(x@),
            None => None,
        }),
{
    match reason {
        Some(x) => {
            let t = trim(x);
            if t.is_empty() {
                "Cancelled by customer"
            } else {
                t
            }
        },
        None => "Cancelled by customer",
    }
}

/// The customer sees the handover OTP while the order is in the store's or
/// rider's hands: confirmed, not finished.
pub fn otp_visible(status: OrderStatus) -> (b: bool)
    ensures
        b == (!terminal(status) && status != OrderStatus::Placed),
{
    !status.is_terminal() && status != OrderStatus::Placed
}

/// The bill shown on an order: the fee and total charged at checkout, even
/// if the rules changed later.
pub fn charged_bill(item_total: i64, mrp_total: i64, delivery_fee: i64, total: i64) -> (b: BillSummary)
    ensures
        b.item_total_paise == item_total,
        b.mrp_total_paise == mrp_total,
        b.delivery_fee_paise == delivery_fee,
        b.total_paise == total,
        b.free_delivery_above_paise == crate::pricing::FREE_DELIVERY_ABOVE_PAISE,
{
    let mut b = bill(item_total, mrp_total);
    b.delivery_fee_paise = delivery_fee;
    b.total_paise = total;
    b
}

/// Total units over the first `k` items.
pub open spec fn units(items: Seq<OrderItem>, k: int) -> int
    decreases k,
{
    if k <= 0 {
        0
    } else {
        units(items, k - 1) + items[k - 1].quantity
    }
}

/// Units in an order.
pub fn item_count(items: &[OrderItem]) -> (n: i32)
    requires
        forall|k: int| 0 <= k <= items@.len() ==> i32::MIN <= #[trigger] units(items@, k) <= i32::MAX,
    ensures
        n == units(items@, items@.len() as int),
{
    let mut n: i32 = 0;
    let mut i: usize = 0;
    while i < items.len()
        invariant
            i <= items.len(),
            n == units(items@, i as int),
            forall|k: int| 0 <= k <= items@.len() ==> i32::MIN <= #[trigger] units(items@, k) <= i32::MAX,
        decreases items.len() - i,
    {
        assert(i32::MIN <= units(items@, i as int + 1) <= i32::MAX);
        n = n + items[i].quantity;
        i = i + 1;
    }
    n
}

/// The payment checkout is offered to the client only while an online order
/// awaits payment.
pub fn offers_gateway_checkout(
    has_gateway_order: bool,
    gateway_configured: bool,
    payment: PaymentStatus,
    status: OrderStatus,
) -> (b: bool)
    ensures
        b == (has_gateway_order && gateway_configured && payment == PaymentStatus::Pending && status
            == OrderStatus::Placed),
{
    has_gateway_order && gateway_configured && payment == PaymentStatus::Pending && status
        == OrderStatus::Placed
}

/// What the reservation sweeper does with an expired reservation.
#[derive(Clone, Copy, PartialEq, Eq, Structural, Debug)]
pub enum SweepAction {
    /// The order behind it is still unpaid: cancel it (which releases it).
    CancelUnpaid,
    /// No such order (checkout crashed) or it moved on: just release.
    Release,
}

/// The sweeper's decision for a reservation whose order has `status`, if
/// the order exists.
pub fn sweep_action(status: Option<OrderStatus>) -> (a: SweepAction)
    ensures
        a == (if status == Some(OrderStatus::Placed) {
            SweepAction::CancelUnpaid
        } else {
            SweepAction::Release
        }),
{
    match status {
        Some(OrderStatus::Placed) => SweepAction::CancelUnpaid,
        _ => SweepAction::Release,
    }
}

/// `n` as exactly four decimal digits, zero-padded.
pub open spec fn four_digits(n: int) -> Seq<char> {
    seq![
        crate::money::digit_char((n / 1000) as nat),
        crate::money::digit_char(((n / 100) % 10) as nat),
        crate::money::digit_char(((n / 10) % 10) as nat),
        crate::money::digit_char((n % 10) as nat),
    ]
}

/// Four random bytes, little-endian, from a fresh version-4 UUID
/// (`uuid::Uuid::new_v4`). Nothing is promised of the value.
#[verifier::external_body]
fn random_u32() -> u32 {
    let b = uuid::Uuid::new_v4().into_bytes();
    u32::from_le_bytes([b[0], b[1], b[2], b[3]])
}

fn digit_of(d: u32) -> (c: char)
    requires
        d < 10,
    ensures
        c == crate::money::digit_char(d as nat),
{
    let b: u8 = (d as u8) + 48;
    b as char
}

/// The handover OTP drawn from the number `n`: `n % 10000`, four digits.
pub fn otp_from(n: u32) -> (otp: String)
    ensures
        otp@ == four_digits((n % 10000) as int),
{
    let m = n % 10000;
    let mut s = String::new();
    crate::text::push_char(&mut s, digit_of(m / 1000));
    crate::text::push_char(&mut s, digit_of((m / 100) % 10));
    crate::text::push_char(&mut s, digit_of((m / 10) % 10));
    crate::text::push_char(&mut s, digit_of(m % 10));
    s
}

/// 4 random digits for the doorstep handover.
pub fn delivery_otp() -> (otp: String)
    ensures
        otp@.len() == 4,
        forall|i: int| 0 <= i < 4 ==> crate::text::is_ascii_digit(#[trigger] otp@[i]),
{
    let n = random_u32();
    let otp = otp_from(n);
    proof {
        let m = (n % 10000) as int;
        assert(0 <= m / 1000 < 10);
    }
    otp
}

} // verus!
