use backend::cart::{
    cart_view, check_cart_quantity, check_checkout_lines, check_payment_method,
    check_serving_store, checkout_bill, line_for, reservation, sold_out_message, CartError,
    CartLineRow,
    CheckoutError, MAX_PER_ITEM,
};
use backend::order::PaymentMethod;

fn row(product: u128, quantity: i32, price: i64, stock: i32, sellable: bool) -> CartLineRow {
    CartLineRow {
        product_id: product,
        name: format!("p{product}"),
        quantity,
        price_paise: price,
        mrp_paise: price + 200,
        stock,
        sellable,
    }
}

#[test]
fn cart_counts_only_available_lines() {
    let lines = [
        row(1, 2, 2_800, 12, true),
        row(2, 3, 5_000, 1, true),
        row(3, 1, 900, 30, false),
    ];
    let c = cart_view(&lines);
    assert_eq!(c.items.len(), 3);
    assert_eq!(c.item_count, 2);
    assert_eq!(c.bill.item_total_paise, 5_600);
    assert_eq!(c.bill.mrp_total_paise, 6_000);
    assert_eq!(c.bill.delivery_fee_paise, 3_000);
    assert_eq!(c.bill.total_paise, 8_600);
    assert!(!c.can_checkout);

    assert!(c.items[0].available);
    assert_eq!(c.items[0].line_total_paise, 5_600);
    assert_eq!(c.items[0].max_quantity, MAX_PER_ITEM);
    assert!(!c.items[1].available);
    assert_eq!(c.items[1].max_quantity, 1);
    assert_eq!(c.items[1].line_total_paise, 15_000);
    assert!(!c.items[2].available);
    assert_eq!(c.items[2].max_quantity, 0);
    assert_eq!(c.items[2].unit_price_paise, 900);
    assert_eq!(c.items[2].unit_mrp_paise, 1_100);
}

#[test]
fn full_cart_can_check_out_and_ships_free() {
    let lines = [row(1, 1, 26_500, 100, true)];
    let c = cart_view(&lines);
    assert!(c.can_checkout);
    assert_eq!(c.bill.delivery_fee_paise, 0);
    assert_eq!(c.bill.total_paise, 26_500);
}

#[test]
fn empty_cart_cannot_check_out() {
    let c = cart_view(&[]);
    assert!(c.items.is_empty());
    assert_eq!(c.item_count, 0);
    assert_eq!(c.bill.total_paise, 0);
    assert!(!c.can_checkout);
    assert_eq!(check_checkout_lines(&[]), Err(CheckoutError::EmptyCart));
}

#[test]
fn cart_quantity_rules() {
    assert_eq!(check_cart_quantity(0, None), Ok(()));
    assert_eq!(check_cart_quantity(2, None), Err(CartError::ProductNotFound));
    assert_eq!(check_cart_quantity(1, Some(0)), Err(CartError::OutOfStock));
    assert_eq!(check_cart_quantity(3, Some(2)), Err(CartError::OnlyLeft { left: 2 }));
    assert_eq!(check_cart_quantity(2, Some(2)), Ok(()));
}

#[test]
fn online_payment_needs_a_gateway() {
    assert_eq!(
        check_payment_method(PaymentMethod::Online, false),
        Err(CheckoutError::OnlinePaymentUnavailable)
    );
    assert_eq!(check_payment_method(PaymentMethod::Online, true), Ok(()));
    assert_eq!(check_payment_method(PaymentMethod::Cod, false), Ok(()));
}

#[test]
fn address_must_be_served_by_the_cart_store() {
    assert_eq!(check_serving_store(Some(5), 5), Ok(()));
    assert_eq!(check_serving_store(Some(6), 5), Err(CheckoutError::DifferentStore));
    assert_eq!(check_serving_store(None, 5), Err(CheckoutError::NotDeliverable));
}

#[test]
fn first_unavailable_line_is_reported() {
    let lines = [
        row(1, 1, 100, 5, true),
        row(2, 9, 100, 5, true),
        row(3, 1, 100, 5, false),
    ];
    assert_eq!(
        check_checkout_lines(&lines),
        Err(CheckoutError::Unavailable { line: 1 })
    );
    assert_eq!(check_checkout_lines(&lines[..1]), Ok(()));
}

#[test]
fn checkout_bills_every_line() {
    let lines = [row(1, 2, 2_800, 12, true), row(2, 1, 1_000, 0, false)];
    let b = checkout_bill(&lines);
    assert_eq!(b.item_total_paise, 6_600);
    assert_eq!(b.mrp_total_paise, 7_200);
    assert_eq!(b.delivery_fee_paise, 3_000);
    assert_eq!(b.total_paise, 9_600);
}

#[test]
fn reservation_takes_every_line() {
    let lines = [row(1, 2, 2_800, 12, true), row(9, 4, 10, 4, true)];
    assert_eq!(reservation(&lines), vec![(1, 2), (9, 4)]);
    assert_eq!(line_for(&lines, 9), Some(1));
    assert_eq!(line_for(&lines, 3), None);
}

#[test]
fn cart_and_checkout_messages() {
    assert_eq!(CartError::OutOfStock.message("Milk"), "Milk is out of stock");
    assert_eq!(CartError::OnlyLeft { left: 3 }.message("Milk"), "only 3 of Milk left");
    let lines = [row(1, 1, 100, 5, true), row(2, 9, 100, 5, true)];
    assert_eq!(
        CheckoutError::Unavailable { line: 1 }.message(&lines),
        "p2 is no longer available in that quantity; please review your cart"
    );
    assert_eq!(CheckoutError::EmptyCart.message(&[]), "your cart is empty");
    assert_eq!(
        CheckoutError::NotDeliverable.message(&lines),
        "we don't deliver to this address yet"
    );
    assert_eq!(
        sold_out_message(&lines, 2),
        "p2 just sold out; please review your cart"
    );
    assert_eq!(
        sold_out_message(&lines, 7),
        "An item just sold out; please review your cart"
    );
}
