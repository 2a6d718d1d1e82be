//! The rider's side: availability, location, pickup and delivery.

use vstd::prelude::*;
use crate::dispatch::cash_due;
use crate::order::{OrderStatus, PaymentMethod, PaymentStatus};
use crate::money::{decimal, rupees, rupees_text};
use crate::picking::append_number;
use crate::text::{trim, trimmed};
use vstd::string::*;

verus! {

/// Wrong OTPs allowed before the delivery locks (support must step in).
pub const MAX_OTP_ATTEMPTS: i32 = 5;

/// A location fix counts for the distance check for this long (2 minutes).
pub const FIX_MAX_AGE_MS: i64 = 120_000;

/// Why a rider's request is refused.
#[derive(Clone, Copy, PartialEq, Eq, Structural, Debug)]
pub enum RiderError {
    /// Not assigned to a store (403 `NO_STORE`).
    NoStore,
    /// Going offline mid-delivery (409 `ON_DELIVERY`).
    OnDelivery,
    /// Accepting while offline (409 `OFFLINE`).
    Offline,
    /// Accepting while on another delivery (409 `BUSY`).
    Busy,
    /// Another rider accepted first (409 `OFFER_TAKEN`).
    OfferTaken,
    /// The offer expired (410 `OFFER_EXPIRED`).
    OfferExpired,
    /// Wrong bag count at pickup (422 `BAG_MISMATCH`).
    BagMismatch { packed: i32 },
    /// Delivering before pickup (409 `NOT_PICKED_UP`).
    NotPickedUp,
    /// Too many wrong OTPs (423 `OTP_LOCKED`).
    OtpLocked,
    /// A recent fix puts the rider away from the address (422 `TOO_FAR`).
    TooFar,
    /// Wrong OTP (422 `WRONG_OTP`).
    WrongOtp { attempts_left: i32 },
    /// Not exactly the order total collected (422 `COD_AMOUNT_MISMATCH`).
    CodAmountMismatch { total_paise: i64 },
    /// Dropping a job already picked up (409 `ALREADY_PICKED_UP`).
    AlreadyPickedUp,
}

/// The HTTP status of a rider error.
pub open spec fn rider_status(e: RiderError) -> u16 {
    match e {
        RiderError::NoStore => 403,
        RiderError::OfferExpired => 410,
        RiderError::OtpLocked => 423,
        RiderError::BagMismatch { .. } | RiderError::TooFar | RiderError::WrongOtp { .. }
        | RiderError::CodAmountMismatch { .. } => 422,
        _ => 409,
    }
}

impl RiderError {
    /// The HTTP status of this error.
    pub fn status(&self) -> (s: u16)
        ensures
            s == rider_status(*self),
    {
        match self {
            RiderError::NoStore => 403,
            RiderError::OfferExpired => 410,
            RiderError::OtpLocked => 423,
            RiderError::BagMismatch { .. } | RiderError::TooFar | RiderError::WrongOtp { .. }
            | RiderError::CodAmountMismatch { .. } => 422,
            _ => 409,
        }
    }

    /// The machine-readable error code.
    pub fn code(&self) -> (c: &'static str)
        ensures
            c@ == rider_code(*self),
    {
        match self {
            RiderError::NoStore => "NO_STORE",
            RiderError::OnDelivery => "ON_DELIVERY",
            RiderError::Offline => "OFFLINE",
            RiderError::Busy => "BUSY",
            RiderError::OfferTaken => "OFFER_TAKEN",
            RiderError::OfferExpired => "OFFER_EXPIRED",
            RiderError::BagMismatch { .. } => "BAG_MISMATCH",
            RiderError::NotPickedUp => "NOT_PICKED_UP",
            RiderError::OtpLocked => "OTP_LOCKED",
            RiderError::TooFar => "TOO_FAR",
            RiderError::WrongOtp { .. } => "WRONG_OTP",
            RiderError::CodAmountMismatch { .. } => "COD_AMOUNT_MISMATCH",
            RiderError::AlreadyPickedUp => "ALREADY_PICKED_UP",
        }
    }

    /// The message shown to the rider.
    pub fn message(&self) -> (m: String)
        ensures
            m@ == rider_message(*self),
    {
        match self {
            RiderError::NoStore => String::from_str("you're not assigned to a store yet"),
            RiderError::OnDelivery => String::from_str("finish your delivery before going offline"),
            RiderError::Offline => String::from_str("go online to accept deliveries"),
            RiderError::Busy => String::from_str("finish your current delivery first"),
            RiderError::OfferTaken => String::from_str("another rider accepted this order"),
            RiderError::OfferExpired => String::from_str("this offer has expired"),
            RiderError::BagMismatch { packed } => {
                let mut m = String::from_str("this order was packed in ");
                append_number(&mut m, *packed as i64);
                m.append(" bag(s); check the staging area");
                m
            },
            RiderError::NotPickedUp => String::from_str("pick the order up from the store first"),
            RiderError::OtpLocked => String::from_str("too many wrong OTPs; contact support"),
            RiderError::TooFar => String::from_str("you're not at the delivery address yet"),
            RiderError::WrongOtp { attempts_left } => {
                let mut m = String::from_str("wrong OTP, ");
                append_number(&mut m, *attempts_left as i64);
                m.append(" attempt(s) left");
                m
            },
            RiderError::CodAmountMismatch { total_paise } => {
                let mut m = String::from_str("collect exactly ");
                let r = rupees(*total_paise);
                m.append(r.as_str());
                m.append(" from the customer");
                m
            },
            RiderError::AlreadyPickedUp => String::from_str("you've already picked this order up"),
        }
    }
}

pub open spec fn rider_code(e: RiderError) -> Seq<char> {
    match e {
        RiderError::NoStore => "NO_STORE"@,
        RiderError::OnDelivery => "ON_DELIVERY"@,
        RiderError::Offline => "OFFLINE"@,
        RiderError::Busy => "BUSY"@,
        RiderError::OfferTaken => "OFFER_TAKEN"@,
        RiderError::OfferExpired => "OFFER_EXPIRED"@,
        RiderError::BagMismatch { .. } => "BAG_MISMATCH"@,
        RiderError::NotPickedUp => "NOT_PICKED_UP"@,
        RiderError::OtpLocked => "OTP_LOCKED"@,
        RiderError::TooFar => "TOO_FAR"@,
        RiderError::WrongOtp { .. } => "WRONG_OTP"@,
        RiderError::CodAmountMismatch { .. } => "COD_AMOUNT_MISMATCH"@,
        RiderError::AlreadyPickedUp => "ALREADY_PICKED_UP"@,
    }
}

pub open spec fn rider_message(e: RiderError) -> Seq<char> {
    match e {
        RiderError::NoStore => "you're not assigned to a store yet"@,
        RiderError::OnDelivery => "finish your delivery before going offline"@,
        RiderError::Offline => "go online to accept deliveries"@,
        RiderError::Busy => "finish your current delivery first"@,
        RiderError::OfferTaken => "another rider accepted this order"@,
        RiderError::OfferExpired => "this offer has expired"@,
        RiderError::BagMismatch { packed } => "this order was packed in "@ + decimal(packed as int)
            + " bag(s); check the staging area"@,
        RiderError::NotPickedUp => "pick the order up from the store first"@,
        RiderError::OtpLocked => "too many wrong OTPs; contact support"@,
        RiderError::TooFar => "you're not at the delivery address yet"@,
        RiderError::WrongOtp { attempts_left } => "wrong OTP, "@ + decimal(attempts_left as int)
            + " attempt(s) left"@,
        RiderError::CodAmountMismatch { total_paise } => "collect exactly "@ + rupees_text(
            total_paise as int,
        ) + " from the customer"@,
        RiderError::AlreadyPickedUp => "you've already picked this order up"@,
    }
}

/// The rider's store; riders without one can't do anything.
pub fn store_of(store: Option<u128>) -> (r: Result<u128, RiderError>)
    ensures
        match store {
            Some(s) => r == Ok::<u128, RiderError>(s),
            None => r == Err::<u128, RiderError>(RiderError::NoStore),
        },
{
    match store {
        Some(s) => Ok(s),
        None => Err(RiderError::NoStore),
    }
}

/// A rider may go offline only between deliveries.
pub fn check_go_offline(on_delivery: bool) -> (r: Result<(), RiderError>)
    ensures
        on_delivery ==> r == Err::<(), RiderError>(RiderError::OnDelivery),
        !on_delivery ==> r is Ok,
{
    if on_delivery {
        Err(RiderError::OnDelivery)
    } else {
        Ok(())
    }
}

/// A rider may accept an offer only while online and free.
pub fn check_accept(online: bool, on_delivery: bool) -> (r: Result<(), RiderError>)
    ensures
        !online ==> r == Err::<(), RiderError>(RiderError::Offline),
        online && on_delivery ==> r == Err::<(), RiderError>(RiderError::Busy),
        online && !on_delivery ==> r is Ok,
{
    if !online {
        return Err(RiderError::Offline);
    }
    if on_delivery {
        return Err(RiderError::Busy);
    }
    Ok(())
}

/// How the race for an order went.
pub enum Claim {
    /// This rider won; the others on the wave lose their offers.
    Won { others: Vec<u128> },
    /// Someone else won.
    Taken,
    /// This rider was not on the current wave.
    NotOffered,
}

/// The refusal for a lost race, if it was lost.
pub fn claim_refusal(claim: &Claim) -> (r: Option<RiderError>)
    ensures
        match claim {
            Claim::Won { .. } => r is None,
            Claim::Taken => r == Some(RiderError::OfferTaken),
            Claim::NotOffered => r == Some(RiderError::OfferExpired),
        },
{
    match claim {
        Claim::Won { .. } => None,
        Claim::Taken => Some(RiderError::OfferTaken),
        Claim::NotOffered => Some(RiderError::OfferExpired),
    }
}

/// At pickup the rider confirms the bag count the picker packed.
pub fn check_bags(packed: Option<i32>, bags: i32) -> (r: Result<(), RiderError>)
    ensures
        match packed {
            Some(p) => if p != bags {
                r == Err::<(), RiderError>(RiderError::BagMismatch { packed: p })
            } else {
                r is Ok
            },
            None => r is Ok,
        },
{
    match packed {
        Some(p) => if p != bags {
            Err(RiderError::BagMismatch { packed: p })
        } else {
            Ok(())
        },
        None => Ok(()),
    }
}

/// Wrong OTPs still allowed, never negative.
pub fn otp_attempts_left(attempts: i32) -> (left: i32)
    requires
        MAX_OTP_ATTEMPTS - attempts <= i32::MAX,
    ensures
        left == (if MAX_OTP_ATTEMPTS - attempts > 0 {
            MAX_OTP_ATTEMPTS - attempts
        } else {
            0
        }),
{
    let d = MAX_OTP_ATTEMPTS - attempts;
    if d > 0 {
        d
    } else {
        0
    }
}

/// Byte-for-byte comparison of OTPs, in time independent of where they differ.
pub fn otp_matches(expected: &str, given: &str) -> (ok: bool)
    ensures
        ok == (expected@ == given@),
{
    let a = expected.as_bytes();
    let b = given.as_bytes();
    proof {
        vstd::utf8::encode_utf8_decode_utf8(expected@);
        vstd::utf8::encode_utf8_decode_utf8(given@);
    }
    if a.len() != b.len() {
        return false;
    }
    let mut acc: u8 = 0;
    let mut i: usize = 0;
    while i < a.len()
        invariant
            i <= a@.len(),
            a@.len() == b@.len(),
            (acc == 0) == forall|j: int| 0 <= j < i ==> a@[j] == b@[j],
        decreases a.len() - i,
    {
        let x = a[i];
        let y = b[i];
        let next = acc | (x ^ y);
        assert((next == 0) == (acc == 0 && x == y)) by (bit_vector)
            requires
                next == acc | (x ^ y),
        ;
        acc = next;
        i = i + 1;
    }
    proof {
        if acc == 0 {
            assert(a@ =~= b@);
        }
    }
    acc == 0
}

/// The newest of a batch of location fixes: the last one with the latest
/// time, if any.
pub fn latest_fix(recorded_at: &[i64]) -> (r: Option<usize>)
    ensures
        recorded_at@.len() == 0 <==> r is None,
        r matches Some(i) ==> i < recorded_at@.len() && (forall|j: int|
            0 <= j < recorded_at@.len() ==> recorded_at@[j] <= recorded_at@[i as int]) && (forall|j: int|
            i < j < recorded_at@.len() ==> recorded_at@[j] < recorded_at@[i as int]),
{
    if recorded_at.len() == 0 {
        return None;
    }
    let mut best: usize = 0;
    let mut i: usize = 1;
    while i < recorded_at.len()
        invariant
            1 <= i <= recorded_at.len(),
            best < i,
            forall|j: int| 0 <= j < i ==> recorded_at@[j] <= recorded_at@[best as int],
            forall|j: int| best < j < i ==> recorded_at@[j] < recorded_at@[best as int],
        decreases recorded_at.len() - i,
    {
        if recorded_at[i] >= recorded_at[best] {
            best = i;
        }
        i = i + 1;
    }
    Some(best)
}

/// A fix from the future (bad device clock) counts as now.
pub fn fix_time(recorded_at: i64, now: i64) -> (t: i64)
    ensures
        t == (if recorded_at < now {
            recorded_at
        } else {
            now
        }),
{
    if recorded_at < now {
        recorded_at
    } else {
        now
    }
}

/// A rider with the goods who moves away from the store has departed.
pub fn departs_automatically(status: OrderStatus, away_from_store: bool) -> (b: bool)
    ensures
        b == (status == OrderStatus::PickedUp && away_from_store),
{
    status == OrderStatus::PickedUp && away_from_store
}

/// What a delivery attempt may do.
pub enum Handover {
    /// Refused before the OTP is even looked at, or on cash.
    Refuse(RiderError),
    /// The OTP was wrong: count the attempt, then refuse with
    /// `wrong_otp_refusal`.
    WrongOtp,
    /// Hand over: leave the store first if still there; record the cash.
    Proceed { depart_first: bool, cod_collected: Option<i64> },
}

/// The last location fix is recent and away from the address.
pub open spec fn recent_far_fix(now: i64, fix: Option<(i64, bool)>) -> bool {
    match fix {
        Some((at, far)) => now - at <= FIX_MAX_AGE_MS && far,
        None => false,
    }
}

/// Still with the rider: picked up or on the way.
pub open spec fn in_transit(s: OrderStatus) -> bool {
    s == OrderStatus::PickedUp || s == OrderStatus::OutForDelivery
}

/// The outcome of a handover attempt.
pub open spec fn handover_outcome(
    status: OrderStatus,
    attempts: i32,
    now: i64,
    last_fix: Option<(i64, bool)>,
    expected: Seq<char>,
    given: Seq<char>,
    method: PaymentMethod,
    payment: PaymentStatus,
    total: i64,
    collected: Option<i64>,
) -> Handover {
    if !in_transit(status) {
        Handover::Refuse(RiderError::NotPickedUp)
    } else if attempts >= MAX_OTP_ATTEMPTS {
        Handover::Refuse(RiderError::OtpLocked)
    } else if recent_far_fix(now, last_fix) {
        Handover::Refuse(RiderError::TooFar)
    } else if expected != trimmed(given) {
        Handover::WrongOtp
    } else if cash_due(method, payment) && collected != Some(total) {
        Handover::Refuse(RiderError::CodAmountMismatch { total_paise: total })
    } else {
        Handover::Proceed {
            depart_first: status == OrderStatus::PickedUp,
            cod_collected: if cash_due(method, payment) {
                Some(total)
            } else {
                None
            },
        }
    }
}

/// The rules of a handover, in order: picked up, not locked, at the address
/// (by a recent fix), the right OTP, and exactly the total in cash when cash
/// is due.
pub fn check_handover(
    status: OrderStatus,
    attempts: i32,
    now: i64,
    last_fix: Option<(i64, bool)>,
    expected_otp: &str,
    given_otp: &str,
    method: PaymentMethod,
    payment: PaymentStatus,
    total_paise: i64,
    cod_collected: Option<i64>,
) -> (h: Handover)
    requires
        fix_age_fits(now, last_fix),
    ensures
        h == handover_outcome(
            status,
            attempts,
            now,
            last_fix,
            expected_otp@,
            given_otp@,
            method,
            payment,
            total_paise,
            cod_collected,
        ),
{
    if !(status == OrderStatus::PickedUp || status == OrderStatus::OutForDelivery) {
        return Handover::Refuse(RiderError::NotPickedUp);
    }
    if attempts >= MAX_OTP_ATTEMPTS {
        return Handover::Refuse(RiderError::OtpLocked);
    }
    match last_fix {
        Some((at, far)) => {
            if now - at <= FIX_MAX_AGE_MS && far {
                return Handover::Refuse(RiderError::TooFar);
            }
        },
        None => {},
    }
    if !otp_matches(expected_otp, trim(given_otp)) {
        return Handover::WrongOtp;
    }
    let cod = method == PaymentMethod::Cod && payment != PaymentStatus::Paid;
    if cod {
        match cod_collected {
            Some(c) => if c != total_paise {
                return Handover::Refuse(RiderError::CodAmountMismatch { total_paise });
            },
            None => return Handover::Refuse(RiderError::CodAmountMismatch { total_paise }),
        }
    }
    Handover::Proceed {
        depart_first: status == OrderStatus::PickedUp,
        cod_collected: if cod {
            Some(total_paise)
        } else {
            None
        },
    }
}

/// The age of the last fix can be computed.
pub open spec fn fix_age_fits(now: i64, fix: Option<(i64, bool)>) -> bool {
    match fix {
        Some((at, _)) => i64::MIN <= now - at <= i64::MAX,
        None => true,
    }
}

/// The refusal after the `attempts_now`-th wrong OTP was counted.
pub open spec fn otp_refusal(attempts_now: int) -> RiderError {
    if MAX_OTP_ATTEMPTS - attempts_now <= 0 {
        RiderError::OtpLocked
    } else {
        RiderError::WrongOtp { attempts_left: (MAX_OTP_ATTEMPTS - attempts_now) as i32 }
    }
}

/// The refusal after a wrong OTP was counted: locked once no attempts are
/// left, otherwise how many remain.
pub fn wrong_otp_refusal(attempts_now: i32) -> (e: RiderError)
    requires
        MAX_OTP_ATTEMPTS - attempts_now <= i32::MAX,
    ensures
        MAX_OTP_ATTEMPTS - attempts_now <= 0 ==> e == RiderError::OtpLocked,
        MAX_OTP_ATTEMPTS - attempts_now > 0 ==> e == (RiderError::WrongOtp {
            attempts_left: (MAX_OTP_ATTEMPTS - attempts_now) as i32,
        }),
        e == otp_refusal(attempts_now as int),
{
    let left = otp_attempts_left(attempts_now);
    if left == 0 {
        RiderError::OtpLocked
    } else {
        RiderError::WrongOtp { attempts_left: left }
    }
}

/// A delivery locks after five wrong OTPs. With the rider at the address
/// and the order with them, and `wrong` not the OTP: each of the first five
/// attempts (made with 0 to 4 wrong ones counted) is a wrong OTP; once the
/// `k`-th is counted the refusal says `5 - k` attempts are left for `k < 5`,
/// and the fifth locks it; from then on every attempt is refused as locked,
/// even with the right OTP, and nothing is handed over.
pub proof fn lemma_otp_locks_after_five_wrong(
    status: OrderStatus,
    now: i64,
    last_fix: Option<(i64, bool)>,
    expected: Seq<char>,
    wrong: Seq<char>,
    given: Seq<char>,
    method: PaymentMethod,
    payment: PaymentStatus,
    total: i64,
    collected: Option<i64>,
)
    requires
        in_transit(status),
        !recent_far_fix(now, last_fix),
        expected != trimmed(wrong),
    ensures
        forall|k: i32|
            0 <= k < MAX_OTP_ATTEMPTS ==> #[trigger] handover_outcome(
                status,
                k,
                now,
                last_fix,
                expected,
                wrong,
                method,
                payment,
                total,
                collected,
            ) == Handover::WrongOtp,
        forall|k: int|
            1 <= k < MAX_OTP_ATTEMPTS ==> #[trigger] otp_refusal(k) == (RiderError::WrongOtp {
                attempts_left: (MAX_OTP_ATTEMPTS - k) as i32,
            }),
        otp_refusal(1) == (RiderError::WrongOtp { attempts_left: 4 }),
        otp_refusal(MAX_OTP_ATTEMPTS as int) == RiderError::OtpLocked,
        forall|k: i32|
            k >= MAX_OTP_ATTEMPTS ==> #[trigger] handover_outcome(
                status,
                k,
                now,
                last_fix,
                expected,
                given,
                method,
                payment,
                total,
                collected,
            ) == Handover::Refuse(RiderError::OtpLocked),
{
}

/// A delivery ends partially fulfilled when any line was picked short.
pub fn delivered_status(has_shortage: bool) -> (s: OrderStatus)
    ensures
        s == (if has_shortage {
            OrderStatus::PartiallyFulfilled
        } else {
            OrderStatus::Delivered
        }),
{
    if has_shortage {
        OrderStatus::PartiallyFulfilled
    } else {
        OrderStatus::Delivered
    }
}

/// A handover proceeds only for an order with the rider, never once the
/// OTP is locked, only with the right OTP, and only with exactly the order
/// total collected when cash is due (which is then what is recorded).
pub proof fn lemma_handover_needs_otp_and_cash(
    status: OrderStatus,
    attempts: i32,
    now: i64,
    last_fix: Option<(i64, bool)>,
    expected: Seq<char>,
    given: Seq<char>,
    method: PaymentMethod,
    payment: PaymentStatus,
    total: i64,
    collected: Option<i64>,
)
    requires
        handover_outcome(status, attempts, now, last_fix, expected, given, method, payment, total, collected) is Proceed,
    ensures
        in_transit(status),
        attempts < MAX_OTP_ATTEMPTS,
        expected == trimmed(given),
        !recent_far_fix(now, last_fix),
        cash_due(method, payment) ==> collected == Some(total),
{
}

} // verus!
