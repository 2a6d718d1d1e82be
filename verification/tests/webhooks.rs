use backend::order::{Order, OrderStatus, PaymentMethod, PaymentStatus};
use backend::payments::{
    authenticate_webhook, webhook_action, CashOnDelivery, PaymentEntity, PaymentInit,
    PaymentProvider, Razorpay, WebhookAction, WebhookError,
};
use hmac::Mac;

const BODY: &[u8] = br#"{"event":"payment.captured"}"#;

fn sign(secret: &[u8], body: &[u8]) -> String {
    let mut mac = hmac::Hmac::<sha2::Sha256>::new_from_slice(secret).unwrap();
    mac.update(body);
    hex::encode(mac.finalize().into_bytes())
}

fn entity(amount: i64, currency: &str) -> PaymentEntity {
    PaymentEntity {
        id: "pay_1".into(),
        order_id: Some("order_1".into()),
        amount,
        currency: currency.into(),
    }
}

fn order(id: u128, total: i64) -> Order {
    Order {
        id,
        number: 42,
        user_id: 1,
        store_id: 2,
        status: OrderStatus::Placed,
        payment_method: PaymentMethod::Online,
        payment_status: PaymentStatus::Pending,
        item_total_paise: total,
        mrp_total_paise: total,
        delivery_fee_paise: 0,
        total_paise: total,
        delivery_otp: "0000".into(),
        gateway_order_id: None,
        cancel_reason: None,
        created_at_ms: 0,
    }
}

#[test]
fn signatures_are_accepted_trimmed_and_in_either_case() {
    let rp = Razorpay::new("rzp_test_key".into(), "whsec".into());
    let good = sign(b"whsec", BODY);
    assert!(rp.verify_webhook(BODY, &format!("  {good}\n")));
    assert!(rp.verify_webhook(BODY, &good.to_uppercase()));
    assert!(!rp.verify_webhook(BODY, &good[..good.len() - 1]));
    assert!(!rp.verify_webhook(BODY, &good[..good.len() - 2]));
    assert!(!rp.verify_webhook(BODY, &sign(b"other", BODY)));
    assert!(!rp.verify_webhook(BODY, ""));
}

#[test]
fn webhook_authentication_order() {
    let rp = Razorpay::new("rzp_test_key".into(), "whsec".into());
    let good = sign(b"whsec", BODY);
    assert_eq!(
        authenticate_webhook(None, BODY, Some(&good), Some("evt_1")),
        Err(WebhookError::NoProvider)
    );
    assert_eq!(
        authenticate_webhook(Some(&rp), BODY, None, Some("evt_1")),
        Err(WebhookError::Unauthorized)
    );
    assert_eq!(
        authenticate_webhook(Some(&rp), BODY, Some("0badc0de"), Some("evt_0")),
        Err(WebhookError::Unauthorized)
    );
    assert_eq!(
        authenticate_webhook(Some(&rp), BODY, Some(&good), None),
        Err(WebhookError::MissingEventId)
    );
    assert_eq!(authenticate_webhook(Some(&rp), BODY, Some(&good), Some("evt_1")), Ok(()));
}

#[test]
fn captured_payments_confirm_refund_or_record() {
    let e = entity(26_500, "INR");
    assert_eq!(
        webhook_action("payment.captured", &e, 26_500, OrderStatus::Placed),
        Ok(WebhookAction::Confirm)
    );
    assert_eq!(
        webhook_action("order.paid", &e, 26_500, OrderStatus::Cancelled),
        Ok(WebhookAction::MarkRefunded)
    );
    assert_eq!(
        webhook_action("payment.captured", &e, 26_500, OrderStatus::Confirmed),
        Ok(WebhookAction::MarkPaid)
    );
}

#[test]
fn captured_amount_must_match_the_order() {
    assert_eq!(
        webhook_action("payment.captured", &entity(100, "INR"), 26_500, OrderStatus::Placed),
        Err(WebhookError::AmountMismatch)
    );
    assert_eq!(
        webhook_action("payment.captured", &entity(26_500, "USD"), 26_500, OrderStatus::Placed),
        Err(WebhookError::AmountMismatch)
    );
}

#[test]
fn failed_payments_cancel_only_placed_orders() {
    let e = entity(16_500, "INR");
    assert_eq!(
        webhook_action("payment.failed", &e, 16_500, OrderStatus::Placed),
        Ok(WebhookAction::CancelFailed)
    );
    assert_eq!(
        webhook_action("payment.failed", &e, 16_500, OrderStatus::Confirmed),
        Ok(WebhookAction::Ignore)
    );
    assert_eq!(
        webhook_action("refund.created", &e, 1, OrderStatus::Placed),
        Ok(WebhookAction::Ignore)
    );
}

#[test]
fn providers_start_payment() {
    assert_eq!(CashOnDelivery.method(), PaymentMethod::Cod);
    assert!(matches!(
        CashOnDelivery.initiate(&order(1, 100)),
        PaymentInit::CollectOnDelivery
    ));
    let rp = Razorpay::new("rzp_test_key".into(), "whsec".into());
    assert_eq!(rp.method(), PaymentMethod::Online);
    let id: u128 = 0x0123_4567_89ab_cdef_0011_2233_4455_6677;
    match rp.initiate(&order(id, 26_500)) {
        PaymentInit::Gateway(c) => {
            assert_eq!(c.key_id, "rzp_test_key");
            assert_eq!(c.gateway_order_id, "order_stub0123456789abcd");
            assert_eq!(c.amount_paise, 26_500);
            assert_eq!(c.currency, "INR");
        }
        PaymentInit::CollectOnDelivery => panic!("expected a gateway checkout"),
    }
    let small = rp.checkout_for(&order(255, 1));
    assert_eq!(small.gateway_order_id, "order_stub00000000000000");
}
