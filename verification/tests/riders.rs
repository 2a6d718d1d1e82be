use backend::dispatch::{
    collect_paise, drop_area, next_wave, offer_expiry, redispatch_after_decline, should_dispatch,
    DeliveryInfo,
};
use backend::order::{OrderStatus, PaymentMethod, PaymentStatus};
use backend::rider::{
    check_accept, check_bags, check_go_offline, check_handover, claim_refusal,
    delivered_status, departs_automatically, fix_time, latest_fix, otp_attempts_left, store_of,
    wrong_otp_refusal, Claim, Handover, RiderError, FIX_MAX_AGE_MS, MAX_OTP_ATTEMPTS,
};

fn info(method: PaymentMethod, payment: PaymentStatus, total: i64) -> DeliveryInfo {
    DeliveryInfo {
        order_id: 1,
        number: 1_001,
        store_id: 2,
        store_name: "Indiranagar".into(),
        store_address: "12th Main".into(),
        customer_phone: "+919876543210".into(),
        item_count: 2,
        bag_count: Some(1),
        staging_slot: Some("S-02".into()),
        payment_method: method,
        payment_status: payment,
        total_paise: total,
        status: OrderStatus::Packed,
    }
}

fn handover(
    status: OrderStatus,
    attempts: i32,
    fix: Option<(i64, bool)>,
    given: &str,
    payment: PaymentStatus,
    collected: Option<i64>,
) -> Handover {
    check_handover(
        status,
        attempts,
        1_000_000,
        fix,
        "1111",
        given,
        PaymentMethod::Cod,
        payment,
        20_000,
        collected,
    )
}

#[test]
fn cash_due_only_on_unpaid_cod() {
    assert_eq!(collect_paise(&info(PaymentMethod::Cod, PaymentStatus::Pending, 20_000)), 20_000);
    assert_eq!(collect_paise(&info(PaymentMethod::Cod, PaymentStatus::Paid, 20_000)), 0);
    assert_eq!(collect_paise(&info(PaymentMethod::Online, PaymentStatus::Paid, 20_000)), 0);
}

#[test]
fn dispatch_only_packed_unclaimed_orders() {
    assert!(should_dispatch(OrderStatus::Packed, false, false, false));
    assert!(!should_dispatch(OrderStatus::Packed, true, false, false));
    assert!(!should_dispatch(OrderStatus::Packed, false, true, false));
    assert!(!should_dispatch(OrderStatus::Packed, false, false, true));
    assert!(!should_dispatch(OrderStatus::Picking, false, false, false));
}

#[test]
fn waves_offer_the_nearest_free_untried_riders() {
    let nearby = [10, 11, 12, 13, 14];
    let online = [10, 11, 12, 14];
    let busy = [11];
    let w = next_wave(&nearby, &online, &busy, &[10], 2);
    assert_eq!(w.riders, vec![12, 14]);
    assert!(!w.reset_tried);
    let one = next_wave(&nearby, &online, &busy, &[], 0);
    assert_eq!(one.riders, vec![10]);
}

#[test]
fn waves_reset_once_everyone_was_tried() {
    let w = next_wave(&[1, 2], &[1, 2], &[], &[1, 2], 3);
    assert!(w.riders.is_empty());
    assert!(w.reset_tried);
    let none = next_wave(&[1, 2], &[], &[], &[], 3);
    assert!(none.riders.is_empty());
    assert!(!none.reset_tried);
}

#[test]
fn offers_expire_after_their_ttl() {
    assert_eq!(offer_expiry(1_000, 60_000), 61_000);
    assert!(redispatch_after_decline(0));
    assert!(!redispatch_after_decline(2));
}

#[test]
fn rider_status_and_accept_rules() {
    assert_eq!(store_of(Some(3)), Ok(3));
    assert_eq!(store_of(None), Err(RiderError::NoStore));
    assert_eq!(check_go_offline(true), Err(RiderError::OnDelivery));
    assert_eq!(check_go_offline(false), Ok(()));
    assert_eq!(check_accept(false, false), Err(RiderError::Offline));
    assert_eq!(check_accept(true, true), Err(RiderError::Busy));
    assert_eq!(check_accept(true, false), Ok(()));
}

#[test]
fn the_first_accept_wins() {
    assert_eq!(claim_refusal(&Claim::Won { others: vec![2, 3] }), None);
    assert_eq!(claim_refusal(&Claim::Taken), Some(RiderError::OfferTaken));
    assert_eq!(claim_refusal(&Claim::NotOffered), Some(RiderError::OfferExpired));
}

#[test]
fn bag_count_must_match_the_packing() {
    assert_eq!(check_bags(Some(2), 2), Ok(()));
    assert_eq!(check_bags(Some(2), 1), Err(RiderError::BagMismatch { packed: 2 }));
    assert_eq!(check_bags(None, 5), Ok(()));
}

#[test]
fn otp_attempts_count_down_to_a_lock() {
    assert_eq!(otp_attempts_left(0), MAX_OTP_ATTEMPTS);
    assert_eq!(otp_attempts_left(1), 4);
    assert_eq!(otp_attempts_left(7), 0);
    assert_eq!(wrong_otp_refusal(1), RiderError::WrongOtp { attempts_left: 4 });
    assert_eq!(wrong_otp_refusal(5), RiderError::OtpLocked);
}

#[test]
fn rider_error_messages() {
    assert_eq!(RiderError::WrongOtp { attempts_left: 4 }.message(), "wrong OTP, 4 attempt(s) left");
    assert_eq!(RiderError::WrongOtp { attempts_left: 4 }.code(), "WRONG_OTP");
    assert_eq!(RiderError::WrongOtp { attempts_left: 4 }.status(), 422);
    assert_eq!(
        RiderError::CodAmountMismatch { total_paise: 20_000 }.message(),
        "collect exactly ₹200 from the customer"
    );
    assert_eq!(
        RiderError::BagMismatch { packed: 2 }.message(),
        "this order was packed in 2 bag(s); check the staging area"
    );
    assert_eq!(RiderError::OtpLocked.status(), 423);
    assert_eq!(RiderError::OtpLocked.code(), "OTP_LOCKED");
    assert_eq!(RiderError::OfferExpired.status(), 410);
    assert_eq!(RiderError::NoStore.status(), 403);
    assert_eq!(RiderError::AlreadyPickedUp.status(), 409);
    assert_eq!(RiderError::TooFar.code(), "TOO_FAR");
}

#[test]
fn handover_refusals_in_order() {
    assert!(matches!(
        handover(OrderStatus::RiderAssigned, 0, None, "1111", PaymentStatus::Pending, Some(20_000)),
        Handover::Refuse(RiderError::NotPickedUp)
    ));
    assert!(matches!(
        handover(OrderStatus::OutForDelivery, 5, None, "1111", PaymentStatus::Pending, Some(20_000)),
        Handover::Refuse(RiderError::OtpLocked)
    ));
    assert!(matches!(
        handover(
            OrderStatus::OutForDelivery,
            0,
            Some((1_000_000 - FIX_MAX_AGE_MS, true)),
            "1111",
            PaymentStatus::Pending,
            Some(20_000)
        ),
        Handover::Refuse(RiderError::TooFar)
    ));
    assert!(matches!(
        handover(OrderStatus::OutForDelivery, 0, None, "2222", PaymentStatus::Pending, Some(20_000)),
        Handover::WrongOtp
    ));
    assert!(matches!(
        handover(OrderStatus::OutForDelivery, 0, None, "1111", PaymentStatus::Pending, Some(19_999)),
        Handover::Refuse(RiderError::CodAmountMismatch { total_paise: 20_000 })
    ));
    assert!(matches!(
        handover(OrderStatus::OutForDelivery, 0, None, "1111", PaymentStatus::Pending, None),
        Handover::Refuse(RiderError::CodAmountMismatch { total_paise: 20_000 })
    ));
}

#[test]
fn handover_proceeds_with_the_right_otp_and_cash() {
    assert!(matches!(
        handover(OrderStatus::PickedUp, 4, None, " 1111 ", PaymentStatus::Pending, Some(20_000)),
        Handover::Proceed { depart_first: true, cod_collected: Some(20_000) }
    ));
    assert!(matches!(
        handover(
            OrderStatus::OutForDelivery,
            0,
            Some((1_000_000 - FIX_MAX_AGE_MS - 1, true)),
            "1111",
            PaymentStatus::Paid,
            None
        ),
        Handover::Proceed { depart_first: false, cod_collected: None }
    ));
    assert!(matches!(
        handover(OrderStatus::OutForDelivery, 0, Some((1_000_000, false)), "1111", PaymentStatus::Paid, None),
        Handover::Proceed { depart_first: false, cod_collected: None }
    ));
}

#[test]
fn location_fixes() {
    assert_eq!(latest_fix(&[]), None);
    assert_eq!(latest_fix(&[5, 9, 3]), Some(1));
    assert_eq!(latest_fix(&[9, 4, 9]), Some(2));
    assert_eq!(fix_time(50, 100), 50);
    assert_eq!(fix_time(150, 100), 100);
    assert!(departs_automatically(OrderStatus::PickedUp, true));
    assert!(!departs_automatically(OrderStatus::PickedUp, false));
    assert!(!departs_automatically(OrderStatus::OutForDelivery, true));
}

#[test]
fn shortages_end_partially_fulfilled() {
    assert_eq!(delivered_status(true), OrderStatus::PartiallyFulfilled);
    assert_eq!(delivered_status(false), OrderStatus::Delivered);
}

#[test]
fn offers_name_the_drop_area() {
    assert_eq!(drop_area("Bengaluru", "560038"), "Bengaluru, 560038");
}

#[test]
fn five_wrong_otps_lock_the_handover() {
    let mut attempts = 0;
    for i in 1..=5 {
        assert!(matches!(
            handover(OrderStatus::OutForDelivery, attempts, None, "9999", PaymentStatus::Paid, None),
            Handover::WrongOtp
        ));
        attempts += 1;
        let refusal = wrong_otp_refusal(attempts);
        if i < 5 {
            assert_eq!(refusal, RiderError::WrongOtp { attempts_left: 5 - i });
        } else {
            assert_eq!(refusal, RiderError::OtpLocked);
        }
    }
    assert_eq!(wrong_otp_refusal(1).message(), "wrong OTP, 4 attempt(s) left");
    assert!(matches!(
        handover(OrderStatus::OutForDelivery, attempts, None, "1111", PaymentStatus::Paid, None),
        Handover::Refuse(RiderError::OtpLocked)
    ));
}
