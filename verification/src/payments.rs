//! Payment providers. Cash on delivery works today; Razorpay is stubbed behind
//! the same trait (real Orders API call pending) with working webhook
//! signature verification.

use hmac::Mac;
use vstd::prelude::*;
use vstd::string::*;
use crate::order::{Order, OrderStatus, PaymentMethod};
use crate::text::{same_text, trim, trimmed};

verus! {

/// Value of an ASCII hex digit (either case), if it is one.
pub open spec fn hex_value(b: u8) -> Option<int> {
    if 0x30 <= b <= 0x39 {
        Some(b - 0x30)
    } else if 0x41 <= b <= 0x46 {
        Some(b - 0x41 + 10)
    } else if 0x61 <= b <= 0x66 {
        Some(b - 0x61 + 10)
    } else {
        None
    }
}

/// Text `hex` can be decoded: an even number of hex digits.
pub open spec fn hex_decodable(hex: Seq<u8>) -> bool {
    hex.len() % 2 == 0 && forall|i: int| 0 <= i < hex.len() ==> (#[trigger] hex_value(hex[i])) is Some
}

/// The bytes `hex` encodes, two digits per byte, high nibble first.
pub open spec fn hex_bytes(hex: Seq<u8>) -> Seq<u8> {
    Seq::new(
        (hex.len() / 2) as nat,
        |i: int| (hex_value(hex[2 * i])->0 * 16 + hex_value(hex[2 * i + 1])->0) as u8,
    )
}

/// `hex::decode`: the bytes of an even-length string of hex digits (either
/// case), or `None` for odd length or any other character.
#[verifier::external_body]
fn hex_decode(hex: &[u8]) -> (r: Option<Vec<u8>>)
    ensures
        r is Some <==> hex_decodable(hex@),
        r matches Some(v) ==> v@ == hex_bytes(hex@),
{
    hex::decode(hex).ok()
}

/// HMAC-SHA256 of `msg` under `key` (RFC 2104 over SHA-256), as computed by
/// the `hmac` and `sha2` crates.
pub uninterp spec fn hmac_sha256(key: Seq<u8>, msg: Seq<u8>) -> Seq<u8>;

/// `Hmac::<Sha256>::new_from_slice(key)`, `update(msg)` and
/// `verify_slice(tag)`: true exactly when `tag` is the full HMAC-SHA256 of
/// `msg` under `key` (compared in constant time), which is 32 bytes long:
/// `verify_slice` refuses any tag of another length. Keys of any length are
/// accepted, so creating the MAC never fails.
#[verifier::external_body]
fn hmac_sha256_matches(key: &[u8], msg: &[u8], tag: &[u8]) -> (ok: bool)
    ensures
        ok == (tag@ == hmac_sha256(key@, msg@)),
        ok ==> tag@.len() == 32,
{
    let mut mac = match hmac::Hmac::<sha2::Sha256>::new_from_slice(key) {
        Ok(m) => m,
        Err(_) => return false,
    };
    mac.update(msg);
    mac.verify_slice(tag).is_ok()
}

/// What the client must do next after an order is placed.
pub enum PaymentInit {
    /// Nothing to pay now; confirm the order immediately.
    CollectOnDelivery,
    /// Open the gateway checkout; the order confirms on the payment webhook.
    Gateway(RazorpayCheckout),
}

/// What the client needs to open Razorpay's checkout.
pub struct RazorpayCheckout {
    pub key_id: String,
    pub gateway_order_id: String,
    pub amount_paise: i64,
    pub currency: String,
}

/// A way to pay for an order.
pub trait PaymentProvider {
    /// The payment method this provider handles.
    fn method(&self) -> PaymentMethod;

    /// Starts payment for a freshly placed (PLACED) order.
    fn initiate(&self, order: &Order) -> PaymentInit;
}

/// Cash (or UPI to the rider) on delivery: nothing to collect up front.
pub struct CashOnDelivery;

impl PaymentProvider for CashOnDelivery {
    fn method(&self) -> (m: PaymentMethod)
        ensures
            m == PaymentMethod::Cod,
    {
        PaymentMethod::Cod
    }

    fn initiate(&self, order: &Order) -> (i: PaymentInit)
        ensures
            i is CollectOnDelivery,
    {
        PaymentInit::CollectOnDelivery
    }
}

/// Razorpay: orders are paid on Razorpay's checkout and confirmed by its
/// signed webhooks.
pub struct Razorpay {
    pub key_id: String,
    webhook_secret: String,
}

/// The lower-case hex digit of `d` (`d < 16`).
pub open spec fn hex_char(d: nat) -> char {
    if d < 10 {
        (d + 48) as char
    } else {
        (d - 10 + 97) as char
    }
}

/// The last `k` hex digits of `n`, most significant first.
pub open spec fn hex_digits(n: nat, k: nat) -> Seq<char>
    decreases k,
{
    if k == 0 {
        Seq::empty()
    } else {
        hex_digits(n / 16, (k - 1) as nat).push(hex_char(n % 16))
    }
}

/// The stand-in gateway order id for an order: `order_stub` and the first
/// 14 digits of the order id in 32-digit lower-case hex.
pub open spec fn stub_gateway_order_id(order_id: u128) -> Seq<char> {
    "order_stub"@ + hex_digits(order_id as nat, 32).take(14)
}

fn push_hex(n: u128, k: u32, out: &mut Vec<char>)
    ensures
        final(out)@ == old(out)@ + hex_digits(n as nat, k as nat),
    decreases k,
{
    if k > 0 {
        push_hex(n / 16, k - 1, out);
        let d = n % 16;
        let c: char = if d < 10 {
            ((d as u8) + 48) as char
        } else {
            ((d as u8) - 10 + 97) as char
        };
        out.push(c);
        assert(old(out)@ + hex_digits(n as nat, k as nat) =~= old(out)@ + hex_digits(
            (n / 16) as nat,
            (k - 1) as nat,
        ) + seq![hex_char((n % 16) as nat)]);
    } else {
        assert(old(out)@ + hex_digits(n as nat, 0) =~= old(out)@);
    }
}

proof fn lemma_hex_digits_len(n: nat, k: nat)
    ensures
        hex_digits(n, k).len() == k,
    decreases k,
{
    if k > 0 {
        lemma_hex_digits_len(n / 16, (k - 1) as nat);
    }
}

impl Razorpay {
    pub fn new(key_id: String, webhook_secret: String) -> (r: Self)
        ensures
            r.key() == key_id,
            r.secret() == webhook_secret,
    {
        Razorpay { key_id, webhook_secret }
    }

    /// The public key id.
    pub closed spec fn key(&self) -> String {
        self.key_id
    }

    /// The webhook signing secret.
    pub closed spec fn secret(&self) -> String {
        self.webhook_secret
    }

    /// `X-Razorpay-Signature` is hex(HMAC-SHA256(raw body, webhook secret)).
    /// Compared in constant time.
    pub fn verify_webhook(&self, body: &[u8], signature_hex: &str) -> (ok: bool)
        ensures
            ok == signature_valid(self.secret()@, body@, signature_hex@),
            ok ==> vstd::utf8::encode_utf8(trimmed(signature_hex@)).len() == 64,
    {
        let sig = trim(signature_hex);
        match hex_decode(sig.as_bytes()) {
            None => false,
            Some(tag) => hmac_sha256_matches(
                self.webhook_secret.as_str().as_bytes(),
                body,
                tag.as_slice(),
            ),
        }
    }

    /// The gateway order for a placed order (a stand-in id until the Orders
    /// API call is made), for the order's total in rupees.
    pub fn checkout_for(&self, order: &Order) -> (c: RazorpayCheckout)
        ensures
            c.key_id == self.key(),
            c.gateway_order_id@ == stub_gateway_order_id(order.id),
            c.amount_paise == order.total_paise,
            c.currency@ == "INR"@,
    {
        let mut hex: Vec<char> = Vec::new();
        push_hex(order.id, 32, &mut hex);
        proof {
            lemma_hex_digits_len(order.id as nat, 32);
        }
        let mut id = String::from_str("order_stub");
        let mut i: usize = 0;
        while i < 14
            invariant
                i <= 14,
                hex@ == hex_digits(order.id as nat, 32),
                hex@.len() == 32,
                id@ == "order_stub"@ + hex@.take(i as int),
            decreases 14 - i,
        {
            crate::text::push_char(&mut id, hex[i]);
            assert(hex@.take(i as int + 1) =~= hex@.take(i as int).push(hex@[i as int]));
            i = i + 1;
        }
        RazorpayCheckout {
            key_id: self.key_id.clone(),
            gateway_order_id: id,
            amount_paise: order.total_paise,
            currency: String::from_str("INR"),
        }
    }
}

/// A webhook signature is valid when, trimmed and hex-decoded, it is the
/// HMAC-SHA256 of the raw body under the webhook secret.
pub open spec fn signature_valid(secret: Seq<char>, body: Seq<u8>, signature: Seq<char>) -> bool {
    let hex = vstd::utf8::encode_utf8(trimmed(signature));
    hex_decodable(hex) && hex_bytes(hex) == hmac_sha256(vstd::utf8::encode_utf8(secret), body)
}

impl PaymentProvider for Razorpay {
    fn method(&self) -> (m: PaymentMethod)
        ensures
            m == PaymentMethod::Online,
    {
        PaymentMethod::Online
    }

    fn initiate(&self, order: &Order) -> (i: PaymentInit)
        ensures
            i matches PaymentInit::Gateway(c) && c.gateway_order_id@ == stub_gateway_order_id(
                order.id,
            ) && c.amount_paise == order.total_paise && c.currency@ == "INR"@ && c.key_id
                == self.key(),
    {
        PaymentInit::Gateway(self.checkout_for(order))
    }
}

/// Configured providers. Online payments are off unless Razorpay is configured.
pub struct Payments {
    pub cod: CashOnDelivery,
    pub razorpay: Option<Razorpay>,
}

/// The parts of a Razorpay webhook the library acts on.
pub struct RazorpayWebhook {
    pub event: String,
    pub payload: WebhookPayload,
}

pub struct WebhookPayload {
    pub payment: Option<PaymentWrapper>,
}

pub struct PaymentWrapper {
    pub entity: PaymentEntity,
}

pub struct PaymentEntity {
    pub id: String,
    pub order_id: Option<String>,
    pub amount: i64,
    pub currency: String,
}

/// Why a webhook delivery is refused.
#[derive(Clone, Copy, PartialEq, Eq, Structural, Debug)]
pub enum WebhookError {
    /// Online payments are not configured (404).
    NoProvider,
    /// Missing or bad signature (401).
    Unauthorized,
    /// No `X-Razorpay-Event-Id` header (400).
    MissingEventId,
    /// The captured amount or currency is not the order's (400).
    AmountMismatch,
}

/// A webhook delivery is accepted only with a provider configured, a valid
/// signature and an event id.
pub fn authenticate_webhook(
    razorpay: Option<&Razorpay>,
    body: &[u8],
    signature: Option<&str>,
    event_id: Option<&str>,
) -> (r: Result<(), WebhookError>)
    ensures
        razorpay is None ==> r == Err::<(), WebhookError>(WebhookError::NoProvider),
        razorpay matches Some(rp) ==> match signature {
            None => r == Err::<(), WebhookError>(WebhookError::Unauthorized),
            Some(sig) => if !signature_valid(rp.secret()@, body@, sig@) {
                r == Err::<(), WebhookError>(WebhookError::Unauthorized)
            } else if event_id is None {
                r == Err::<(), WebhookError>(WebhookError::MissingEventId)
            } else {
                r is Ok
            },
        },
{
    let rp = match razorpay {
        Some(rp) => rp,
        None => return Err(WebhookError::NoProvider),
    };
    let sig = match signature {
        Some(s) => s,
        None => return Err(WebhookError::Unauthorized),
    };
    if !rp.verify_webhook(body, sig) {
        return Err(WebhookError::Unauthorized);
    }
    if event_id.is_none() {
        return Err(WebhookError::MissingEventId);
    }
    Ok(())
}

/// What a verified, first-seen payment event does to its order.
#[derive(Clone, Copy, PartialEq, Eq, Structural, Debug)]
pub enum WebhookAction {
    /// Nothing to do.
    Ignore,
    /// Paid while placed: confirm it (taking stock).
    Confirm,
    /// Paid after it was cancelled: record a refund.
    MarkRefunded,
    /// Paid in any other status: record the payment.
    MarkPaid,
    /// Payment failed while placed: cancel it.
    CancelFailed,
}

/// An event that reports a captured payment.
pub open spec fn capture_event(event: Seq<char>) -> bool {
    event == "payment.captured"@ || event == "order.paid"@
}

/// The action for a payment `event` about an order with `total` and
/// `status`, given the payment's amount and currency.
pub open spec fn webhook_outcome(
    event: Seq<char>,
    amount: i64,
    currency: Seq<char>,
    total: i64,
    status: OrderStatus,
) -> Result<WebhookAction, WebhookError> {
    if capture_event(event) {
        if amount != total || currency != "INR"@ {
            Err(WebhookError::AmountMismatch)
        } else if status == OrderStatus::Placed {
            Ok(WebhookAction::Confirm)
        } else if status == OrderStatus::Cancelled {
            Ok(WebhookAction::MarkRefunded)
        } else {
            Ok(WebhookAction::MarkPaid)
        }
    } else if event == "payment.failed"@ && status == OrderStatus::Placed {
        Ok(WebhookAction::CancelFailed)
    } else {
        Ok(WebhookAction::Ignore)
    }
}

/// A payment event confirms an order only when it reports a capture of
/// exactly the order's total in rupees while the order is placed, and
/// cancels one only when the payment failed while it was placed.
pub proof fn lemma_webhook_confirms_only_exact_payments(
    event: Seq<char>,
    amount: i64,
    currency: Seq<char>,
    total: i64,
    status: OrderStatus,
)
    ensures
        webhook_outcome(event, amount, currency, total, status) == Ok::<WebhookAction, WebhookError>(WebhookAction::Confirm)
            ==> capture_event(event) && amount == total && currency == "INR"@ && status == OrderStatus::Placed,
        webhook_outcome(event, amount, currency, total, status) == Ok::<WebhookAction, WebhookError>(WebhookAction::CancelFailed)
            ==> event == "payment.failed"@ && status == OrderStatus::Placed,
        capture_event(event) && (amount != total || currency != "INR"@) ==> webhook_outcome(event, amount, currency, total, status)
            == Err::<WebhookAction, WebhookError>(WebhookError::AmountMismatch),
{
}

/// What each payment event does, by case: a capture (`payment.captured` or
/// `order.paid`) of exactly the order's total in rupees confirms a placed
/// order, records a refund on a cancelled one and records the payment on
/// any other; a capture of another amount or currency is refused; a failed
/// payment cancels a placed order; everything else is ignored.
pub proof fn lemma_webhook_outcomes(
    event: Seq<char>,
    amount: i64,
    currency: Seq<char>,
    total: i64,
    status: OrderStatus,
)
    ensures
        (event == "payment.captured"@ || event == "order.paid"@) && amount == total && currency == "INR"@
            && status == OrderStatus::Placed ==> webhook_outcome(event, amount, currency, total, status)
            == Ok::<WebhookAction, WebhookError>(WebhookAction::Confirm),
        (event == "payment.captured"@ || event == "order.paid"@) && amount == total && currency == "INR"@
            && status == OrderStatus::Cancelled ==> webhook_outcome(event, amount, currency, total, status)
            == Ok::<WebhookAction, WebhookError>(WebhookAction::MarkRefunded),
        (event == "payment.captured"@ || event == "order.paid"@) && amount == total && currency == "INR"@
            && status != OrderStatus::Placed && status != OrderStatus::Cancelled ==> webhook_outcome(
            event,
            amount,
            currency,
            total,
            status,
        ) == Ok::<WebhookAction, WebhookError>(WebhookAction::MarkPaid),
        (event == "payment.captured"@ || event == "order.paid"@) && (amount != total || currency != "INR"@)
            ==> webhook_outcome(event, amount, currency, total, status) == Err::<WebhookAction, WebhookError>(
            WebhookError::AmountMismatch,
        ),
        event == "payment.failed"@ && status == OrderStatus::Placed ==> webhook_outcome(
            event,
            amount,
            currency,
            total,
            status,
        ) == Ok::<WebhookAction, WebhookError>(WebhookAction::CancelFailed),
        event != "payment.captured"@ && event != "order.paid"@ && !(event == "payment.failed"@ && status
            == OrderStatus::Placed) ==> webhook_outcome(event, amount, currency, total, status) == Ok::<
            WebhookAction,
            WebhookError,
        >(WebhookAction::Ignore),
{
    reveal_strlit("payment.captured");
    reveal_strlit("order.paid");
    reveal_strlit("payment.failed");
    assert("payment.failed"@[8] != "payment.captured"@[8]);
    assert("payment.failed"@[0] != "order.paid"@[0]);
}

/// What a payment event does to its order.
pub fn webhook_action(
    event: &str,
    payment: &PaymentEntity,
    order_total: i64,
    order_status: OrderStatus,
) -> (r: Result<WebhookAction, WebhookError>)
    ensures
        r == webhook_outcome(event@, payment.amount, payment.currency@, order_total, order_status),
{
    proof {
        reveal_strlit("payment.captured");
        reveal_strlit("order.paid");
        reveal_strlit("payment.failed");
        reveal_strlit("INR");
    }
    if same_text(event, "payment.captured") || same_text(event, "order.paid") {
        if payment.amount != order_total || !same_text(payment.currency.as_str(), "INR") {
            return Err(WebhookError::AmountMismatch);
        }
        if order_status == OrderStatus::Placed {
            Ok(WebhookAction::Confirm)
        } else if order_status == OrderStatus::Cancelled {
            Ok(WebhookAction::MarkRefunded)
        } else {
            Ok(WebhookAction::MarkPaid)
        }
    } else if same_text(event, "payment.failed") && order_status == OrderStatus::Placed {
        Ok(WebhookAction::CancelFailed)
    } else {
        Ok(WebhookAction::Ignore)
    }
}

} // verus!
