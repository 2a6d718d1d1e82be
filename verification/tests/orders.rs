use backend::order::{
    cancel_sources, charged_bill, check_customer_cancel, compare_and_set, customer_reason,
    delivery_otp, invalid_transition_message, item_count, out_of_stock_message, offers_gateway_checkout, otp_from, otp_visible, plan_cancel,
    restock_quantities, summary, sweep_action, CustomerCancelError, Order, OrderItem,
    OrderStatus, PaymentMethod, PaymentStatus, Step, SweepAction,
};

const ALL: [OrderStatus; 10] = [
    OrderStatus::Placed,
    OrderStatus::Confirmed,
    OrderStatus::Picking,
    OrderStatus::Packed,
    OrderStatus::RiderAssigned,
    OrderStatus::PickedUp,
    OrderStatus::OutForDelivery,
    OrderStatus::Delivered,
    OrderStatus::PartiallyFulfilled,
    OrderStatus::Cancelled,
];

fn item(product: u128, quantity: i32, picked: Option<i32>) -> OrderItem {
    OrderItem {
        product_id: product,
        name: format!("item {product}"),
        quantity,
        unit_price_paise: 1_000,
        unit_mrp_paise: 1_200,
        picked_quantity: picked,
    }
}

#[test]
fn status_wire_names() {
    let names: Vec<&str> = ALL.iter().map(|s| s.as_str()).collect();
    assert_eq!(
        names,
        [
            "PLACED",
            "CONFIRMED",
            "PICKING",
            "PACKED",
            "RIDER_ASSIGNED",
            "PICKED_UP",
            "OUT_FOR_DELIVERY",
            "DELIVERED",
            "PARTIALLY_FULFILLED",
            "CANCELLED"
        ]
    );
}

#[test]
fn terminal_statuses_allow_no_further_change() {
    for from in ALL {
        if from.is_terminal() {
            for to in ALL {
                assert!(!OrderStatus::can_become(from, to), "{from:?} -> {to:?}");
            }
        }
    }
    assert!(OrderStatus::Delivered.is_terminal());
    assert!(!OrderStatus::OutForDelivery.is_terminal());
}

#[test]
fn nothing_returns_to_placed() {
    for from in ALL {
        assert!(!OrderStatus::can_become(from, OrderStatus::Placed));
    }
    assert!(OrderStatus::predecessors(OrderStatus::Placed).is_empty());
}

#[test]
fn the_happy_path_is_allowed() {
    let path = [
        OrderStatus::Placed,
        OrderStatus::Confirmed,
        OrderStatus::Picking,
        OrderStatus::Packed,
        OrderStatus::RiderAssigned,
        OrderStatus::PickedUp,
        OrderStatus::OutForDelivery,
        OrderStatus::Delivered,
    ];
    for w in path.windows(2) {
        assert!(OrderStatus::can_become(w[0], w[1]), "{:?} -> {:?}", w[0], w[1]);
    }
    assert!(!OrderStatus::can_become(OrderStatus::Placed, OrderStatus::Picking));
    assert!(OrderStatus::can_become(
        OrderStatus::OutForDelivery,
        OrderStatus::PartiallyFulfilled
    ));
}

#[test]
fn cancellation_stops_at_pickup() {
    assert!(OrderStatus::can_become(OrderStatus::RiderAssigned, OrderStatus::Cancelled));
    assert!(!OrderStatus::can_become(OrderStatus::PickedUp, OrderStatus::Cancelled));
    assert!(!OrderStatus::can_become(OrderStatus::OutForDelivery, OrderStatus::Cancelled));
    assert_eq!(
        OrderStatus::predecessors(OrderStatus::Cancelled),
        vec![
            OrderStatus::Placed,
            OrderStatus::Confirmed,
            OrderStatus::Picking,
            OrderStatus::Packed,
            OrderStatus::RiderAssigned
        ]
    );
}

#[test]
fn predecessors_match_the_state_machine() {
    for to in ALL {
        let preds = OrderStatus::predecessors(to);
        for from in ALL {
            assert_eq!(preds.contains(&from), OrderStatus::can_become(from, to));
        }
    }
}

#[test]
fn every_step_is_a_legal_transition() {
    let steps = [
        Step::Confirm { paid: true },
        Step::Confirm { paid: false },
        Step::StartPicking,
        Step::ReturnToQueue,
        Step::Pack,
        Step::AssignRider,
        Step::DropRider,
        Step::PickUp,
        Step::Depart { left_store: true },
        Step::Deliver { short: false },
        Step::Deliver { short: true },
    ];
    for s in steps {
        assert!(OrderStatus::can_become(s.source(), s.target()), "{s:?}");
    }
    assert_eq!(Step::Deliver { short: true }.target(), OrderStatus::PartiallyFulfilled);
    assert_eq!(Step::Confirm { paid: true }.note(), "payment received");
    assert_eq!(Step::Confirm { paid: false }.note(), "cash on delivery");
    assert_eq!(Step::Depart { left_store: false }.note(), "on the way");
    assert_eq!(Step::ReturnToQueue.note(), "returned to the queue");
}

#[test]
fn compare_and_set_only_from_listed_statuses() {
    let from = [OrderStatus::Placed, OrderStatus::Confirmed];
    assert_eq!(
        compare_and_set(OrderStatus::Confirmed, &from),
        Some(OrderStatus::Confirmed)
    );
    assert_eq!(compare_and_set(OrderStatus::Picking, &from), None);
    assert_eq!(compare_and_set(OrderStatus::Placed, &[]), None);
}

#[test]
fn cancel_sources_keep_only_legal_ones() {
    assert_eq!(
        cancel_sources(&[OrderStatus::Delivered, OrderStatus::Confirmed, OrderStatus::Placed]),
        vec![OrderStatus::Placed, OrderStatus::Confirmed]
    );
    assert_eq!(cancel_sources(&[OrderStatus::PickedUp]), vec![]);
}

#[test]
fn customer_cancel_rules() {
    assert_eq!(check_customer_cancel(1, 1, OrderStatus::Placed), Ok(()));
    assert_eq!(check_customer_cancel(1, 1, OrderStatus::Confirmed), Ok(()));
    assert_eq!(
        check_customer_cancel(1, 1, OrderStatus::Picking),
        Err(CustomerCancelError::TooLate)
    );
    assert_eq!(
        check_customer_cancel(1, 2, OrderStatus::Placed),
        Err(CustomerCancelError::NotFound)
    );
    assert!(OrderStatus::Confirmed.customer_cancellable());
    assert!(!OrderStatus::Packed.customer_cancellable());
}

#[test]
fn cancellation_reason_defaults_when_blank() {
    assert_eq!(customer_reason(Some("  Ordered by mistake ")), "Ordered by mistake");
    assert_eq!(customer_reason(Some("   ")), "Cancelled by customer");
    assert_eq!(customer_reason(None), "Cancelled by customer");
}

#[test]
fn cancel_plan_refunds_fails_or_leaves_payment() {
    let paid = plan_cancel(
        OrderStatus::Confirmed,
        PaymentMethod::Online,
        PaymentStatus::Paid,
        false,
    );
    assert!(paid.restock);
    assert_eq!(paid.payment_status, Some(PaymentStatus::Refunded));
    assert!(!paid.clear_dispatch);

    let unpaid = plan_cancel(
        OrderStatus::Placed,
        PaymentMethod::Online,
        PaymentStatus::Pending,
        false,
    );
    assert!(!unpaid.restock);
    assert_eq!(unpaid.payment_status, Some(PaymentStatus::Failed));

    let cod = plan_cancel(OrderStatus::Packed, PaymentMethod::Cod, PaymentStatus::Pending, false);
    assert_eq!(cod.payment_status, None);
    assert!(cod.clear_dispatch);
    let assigned = plan_cancel(
        OrderStatus::RiderAssigned,
        PaymentMethod::Cod,
        PaymentStatus::Pending,
        true,
    );
    assert!(assigned.clear_dispatch);
}

#[test]
fn restock_puts_back_only_what_was_found() {
    let items = [item(1, 3, None), item(2, 2, Some(1)), item(3, 4, Some(0))];
    assert_eq!(restock_quantities(&items), vec![(1, 3), (2, 1)]);
    assert_eq!(restock_quantities(&[]), vec![]);
}

#[test]
fn unit_count_of_an_order() {
    assert_eq!(item_count(&[item(1, 2, None), item(2, 5, None)]), 7);
    assert_eq!(item_count(&[]), 0);
}

#[test]
fn otp_shown_only_while_in_progress() {
    assert!(!otp_visible(OrderStatus::Placed));
    assert!(otp_visible(OrderStatus::Confirmed));
    assert!(otp_visible(OrderStatus::OutForDelivery));
    assert!(!otp_visible(OrderStatus::Delivered));
    assert!(!otp_visible(OrderStatus::Cancelled));
}

#[test]
fn charged_bill_keeps_the_checkout_fee() {
    let b = charged_bill(10_000, 12_000, 3_000, 13_000);
    assert_eq!(b.delivery_fee_paise, 3_000);
    assert_eq!(b.total_paise, 13_000);
    assert_eq!(b.item_total_paise, 10_000);
    assert_eq!(b.mrp_total_paise, 12_000);
}

#[test]
fn gateway_checkout_only_for_unpaid_placed_orders() {
    assert!(offers_gateway_checkout(true, true, PaymentStatus::Pending, OrderStatus::Placed));
    assert!(!offers_gateway_checkout(false, true, PaymentStatus::Pending, OrderStatus::Placed));
    assert!(!offers_gateway_checkout(true, false, PaymentStatus::Pending, OrderStatus::Placed));
    assert!(!offers_gateway_checkout(true, true, PaymentStatus::Paid, OrderStatus::Placed));
    assert!(!offers_gateway_checkout(true, true, PaymentStatus::Pending, OrderStatus::Confirmed));
}

#[test]
fn sweeper_cancels_only_unpaid_orders() {
    assert_eq!(sweep_action(Some(OrderStatus::Placed)), SweepAction::CancelUnpaid);
    assert_eq!(sweep_action(Some(OrderStatus::Confirmed)), SweepAction::Release);
    assert_eq!(sweep_action(None), SweepAction::Release);
}

#[test]
fn otp_digits_from_a_number() {
    assert_eq!(otp_from(0), "0000");
    assert_eq!(otp_from(421), "0421");
    assert_eq!(otp_from(123_456), "3456");
    assert_eq!(otp_from(u32::MAX), "7295");
}

#[test]
fn delivery_otps_vary() {
    let otps: std::collections::HashSet<String> = (0..50).map(|_| delivery_otp()).collect();
    assert!(otps.len() > 1);
}

#[test]
fn order_summary_copies_the_listing_fields() {
    let order = Order {
        id: 7,
        number: 1_001,
        user_id: 3,
        store_id: 4,
        status: OrderStatus::Confirmed,
        payment_method: PaymentMethod::Cod,
        payment_status: PaymentStatus::Pending,
        item_total_paise: 5_600,
        mrp_total_paise: 6_000,
        delivery_fee_paise: 3_000,
        total_paise: 8_600,
        delivery_otp: "0421".into(),
        gateway_order_id: None,
        cancel_reason: None,
        created_at_ms: 1_700_000_000_000,
    };
    let s = summary(&order, 2);
    assert_eq!(s.id, 7);
    assert_eq!(s.number, 1_001);
    assert_eq!(s.status, OrderStatus::Confirmed);
    assert_eq!(s.payment_method, PaymentMethod::Cod);
    assert_eq!(s.payment_status, PaymentStatus::Pending);
    assert_eq!(s.total_paise, 8_600);
    assert_eq!(s.item_count, 2);
    assert_eq!(s.created_at_ms, 1_700_000_000_000);
}

#[test]
fn order_refusal_messages() {
    assert_eq!(
        invalid_transition_message(OrderStatus::Delivered, OrderStatus::Cancelled),
        "order is DELIVERED and can't become CANCELLED"
    );
    assert_eq!(
        out_of_stock_message("Eggs"),
        "Eggs went out of stock; the order was cancelled"
    );
    assert_eq!(
        CustomerCancelError::TooLate.message(),
        "the store has started packing this order, so it can't be cancelled"
    );
}
