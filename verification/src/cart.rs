//! The cart and checkout rules: availability, totals, what may be ordered.

use vstd::prelude::*;
use vstd::string::*;
use crate::money::decimal;
use crate::picking::append_number;
use crate::pricing::{bill, lemma_total_prefix, lines_total, lines_total_fits, total_of_lines, BillSummary};
use crate::order::PaymentMethod;

verus! {

/// Most units of one product a customer may put in a cart.
pub const MAX_PER_ITEM: i32 = 10;

/// A cart line joined with the store's live price and stock.
pub struct CartLineRow {
    pub product_id: u128,
    pub name: String,
    pub quantity: i32,
    /// The store's price if it overrides the product's, else the product's.
    pub price_paise: i64,
    pub mrp_paise: i64,
    /// Units on the store's shelf.
    pub stock: i32,
    /// The store, product and category are active and the store offers it.
    pub sellable: bool,
}

/// A line can be bought as it stands.
pub open spec fn available(l: CartLineRow) -> bool {
    l.sellable && l.stock >= l.quantity
}

/// Most units the customer may choose for a line.
pub open spec fn max_quantity(l: CartLineRow) -> int {
    if !l.sellable {
        0
    } else if l.stock < 0 {
        0
    } else if l.stock > MAX_PER_ITEM {
        MAX_PER_ITEM as int
    } else {
        l.stock as int
    }
}

/// `(unit price, quantity)` of the available lines among the first `k`.
pub open spec fn priced(lines: Seq<CartLineRow>, k: int, mrp: bool) -> Seq<(i64, i32)>
    decreases k,
{
    if k <= 0 {
        Seq::empty()
    } else {
        let l = lines[k - 1];
        let rest = priced(lines, k - 1, mrp);
        if available(l) {
            rest.push((if mrp { l.mrp_paise } else { l.price_paise }, l.quantity))
        } else {
            rest
        }
    }
}

/// `(unit price, quantity)` of every line among the first `k`.
pub open spec fn priced_all(lines: Seq<CartLineRow>, k: int, mrp: bool) -> Seq<(i64, i32)>
    decreases k,
{
    if k <= 0 {
        Seq::empty()
    } else {
        let l = lines[k - 1];
        priced_all(lines, k - 1, mrp).push((if mrp { l.mrp_paise } else { l.price_paise }, l.quantity))
    }
}

/// Units over the available lines among the first `k`.
pub open spec fn available_units(lines: Seq<CartLineRow>, k: int) -> int
    decreases k,
{
    if k <= 0 {
        0
    } else {
        available_units(lines, k - 1) + if available(lines[k - 1]) {
            lines[k - 1].quantity as int
        } else {
            0
        }
    }
}

/// One line of the cart as the customer sees it.
pub struct CartLine {
    pub product_id: u128,
    pub quantity: i32,
    pub unit_price_paise: i64,
    pub unit_mrp_paise: i64,
    pub line_total_paise: i64,
    pub available: bool,
    pub max_quantity: i32,
}

/// The cart as the customer sees it.
pub struct CartView {
    pub items: Vec<CartLine>,
    pub item_count: i32,
    pub bill: BillSummary,
    pub can_checkout: bool,
}

/// The cart's numbers fit the integer types they are kept in.
pub open spec fn cart_fits(lines: Seq<CartLineRow>) -> bool {
    &&& lines_total_fits(priced(lines, lines.len() as int, false))
    &&& lines_total_fits(priced(lines, lines.len() as int, true))
    &&& forall|i: int| 0 <= i < lines.len() ==> i64::MIN <= #[trigger] lines[i].price_paise * lines[i].quantity <= i64::MAX
    &&& forall|k: int| 0 <= k <= lines.len() ==> i32::MIN <= #[trigger] available_units(lines, k) <= i32::MAX
}

proof fn lemma_priced_prefix(lines: Seq<CartLineRow>, k: int, n: int, mrp: bool)
    requires
        0 <= k <= n <= lines.len(),
    ensures
        priced(lines, k, mrp).len() <= priced(lines, n, mrp).len(),
        forall|j: int| 0 <= j <= priced(lines, k, mrp).len() ==> lines_total(priced(lines, k, mrp), j) == lines_total(priced(lines, n, mrp), j),
        forall|j: int| 0 <= j < priced(lines, k, mrp).len() ==> priced(lines, k, mrp)[j] == priced(lines, n, mrp)[j],
    decreases n - k,
{
    if k < n {
        lemma_priced_prefix(lines, k, n - 1, mrp);
        let a = priced(lines, n - 1, mrp);
        let b = priced(lines, n, mrp);
        assert forall|j: int| 0 <= j <= a.len() implies lines_total(a, j) == lines_total(b, j) by {
            lemma_total_prefix(a, b, j);
        }
    }
}

/// The cart as the customer sees it: only available lines count towards the
/// bill and the unit count, and checkout needs every line available.
pub fn cart_view(lines: &[CartLineRow]) -> (c: CartView)
    requires
        cart_fits(lines@),
    ensures
        c.items@.len() == lines@.len(),
        forall|i: int| 0 <= i < lines@.len() ==> {
            let l = #[trigger] lines@[i];
            let v = c.items@[i];
            &&& v.product_id == l.product_id
            &&& v.quantity == l.quantity
            &&& v.unit_price_paise == l.price_paise
            &&& v.unit_mrp_paise == l.mrp_paise
            &&& v.line_total_paise == l.price_paise * l.quantity
            &&& v.available == available(l)
            &&& v.max_quantity == max_quantity(l)
        },
        c.item_count == available_units(lines@, lines@.len() as int),
        c.bill == bill_of(
            lines_total(priced(lines@, lines@.len() as int, false), priced(lines@, lines@.len() as int, false).len() as int),
            lines_total(priced(lines@, lines@.len() as int, true), priced(lines@, lines@.len() as int, true).len() as int),
        ),
        c.can_checkout == (lines@.len() > 0 && forall|i: int| 0 <= i < lines@.len() ==> available(#[trigger] lines@[i])),
{
    let mut items: Vec<CartLine> = Vec::new();
    let mut item_total: i64 = 0;
    let mut mrp_total: i64 = 0;
    let mut item_count: i32 = 0;
    let mut all_available = true;
    let n = lines.len();
    let ghost full_p = priced(lines@, n as int, false);
    let ghost full_m = priced(lines@, n as int, true);
    let mut i: usize = 0;
    while i < n
        invariant
            i <= n,
            n == lines@.len(),
            cart_fits(lines@),
            full_p == priced(lines@, n as int, false),
            full_m == priced(lines@, n as int, true),
            items@.len() == i,
            forall|j: int| 0 <= j < i ==> {
                let l = #[trigger] lines@[j];
                let v = items@[j];
                &&& v.product_id == l.product_id
                &&& v.quantity == l.quantity
                &&& v.unit_price_paise == l.price_paise
                &&& v.unit_mrp_paise == l.mrp_paise
                &&& v.line_total_paise == l.price_paise * l.quantity
                &&& v.available == available(l)
                &&& v.max_quantity == max_quantity(l)
            },
            item_total == lines_total(priced(lines@, i as int, false), priced(lines@, i as int, false).len() as int),
            mrp_total == lines_total(priced(lines@, i as int, true), priced(lines@, i as int, true).len() as int),
            item_count == available_units(lines@, i as int),
            all_available == forall|j: int| 0 <= j < i ==> available(#[trigger] lines@[j]),
        decreases n - i,
    {
        let l = &lines[i];
        let avail = l.sellable && l.stock >= l.quantity;
        proof {
            lemma_priced_prefix(lines@, i as int + 1, n as int, false);
            lemma_priced_prefix(lines@, i as int + 1, n as int, true);
            assert(i32::MIN <= available_units(lines@, i as int + 1) <= i32::MAX);
        }
        assert(i64::MIN <= lines@[i as int].price_paise * lines@[i as int].quantity <= i64::MAX);
        let line_total: i64 = l.price_paise * (l.quantity as i64);
        if avail {
            let ghost pp = priced(lines@, i as int + 1, false);
            let ghost pm = priced(lines@, i as int + 1, true);
            let ghost prev_p = priced(lines@, i as int, false);
            let ghost prev_m = priced(lines@, i as int, true);
            assert(pp == prev_p.push((l.price_paise, l.quantity)));
            assert(pm == prev_m.push((l.mrp_paise, l.quantity)));
            proof {
                lemma_total_prefix(prev_p, pp, prev_p.len() as int);
                lemma_total_prefix(prev_m, pm, prev_m.len() as int);
            }
            assert(lines_total(pp, pp.len() as int) == item_total + line_total);
            assert(lines_total(pm, pm.len() as int) == mrp_total + l.mrp_paise * l.quantity);
            assert(lines_total(full_p, pp.len() as int) == lines_total(pp, pp.len() as int));
            assert(lines_total(full_m, pm.len() as int) == lines_total(pm, pm.len() as int));
            assert(i64::MIN <= lines_total(full_p, pp.len() as int) <= i64::MAX);
            assert(i64::MIN <= lines_total(full_m, pm.len() as int) <= i64::MAX);
            assert(pp[pp.len() - 1] == full_p[pp.len() - 1]);
            assert(pm[pm.len() - 1] == full_m[pm.len() - 1]);
            assert(i64::MIN <= full_m[pm.len() - 1].0 * full_m[pm.len() - 1].1 <= i64::MAX);
            item_total = item_total + line_total;
            let m: i64 = l.mrp_paise * (l.quantity as i64);
            mrp_total = mrp_total + m;
            item_count = item_count + l.quantity;
        }
        let max_q: i32 = if !l.sellable {
            0
        } else if l.stock < 0 {
            0
        } else if l.stock > MAX_PER_ITEM {
            MAX_PER_ITEM
        } else {
            l.stock
        };
        items.push(CartLine {
            product_id: l.product_id,
            quantity: l.quantity,
            unit_price_paise: l.price_paise,
            unit_mrp_paise: l.mrp_paise,
            line_total_paise: line_total,
            available: avail,
            max_quantity: max_q,
        });
        all_available = all_available && avail;
        i = i + 1;
    }
    let can_checkout = n > 0 && all_available;
    CartView { items, item_count, bill: bill(item_total, mrp_total), can_checkout }
}

/// The bill for an item total and MRP total.
pub open spec fn bill_of(item_total: int, mrp_total: int) -> BillSummary {
    BillSummary {
        item_total_paise: item_total as i64,
        mrp_total_paise: mrp_total as i64,
        delivery_fee_paise: crate::pricing::delivery_fee(item_total) as i64,
        total_paise: (item_total + crate::pricing::delivery_fee(item_total)) as i64,
        free_delivery_above_paise: crate::pricing::FREE_DELIVERY_ABOVE_PAISE,
    }
}

/// Why a cart change is refused.
#[derive(Clone, Copy, PartialEq, Eq, Structural, Debug)]
pub enum CartError {
    /// The store does not sell this product (404).
    ProductNotFound,
    /// Nothing left on the shelf (409).
    OutOfStock,
    /// Fewer left than asked for (400).
    OnlyLeft { left: i32 },
}

/// The message shown when a cart change for the product `name` is refused.
pub open spec fn cart_message(e: CartError, name: Seq<char>) -> Seq<char> {
    match e {
        CartError::ProductNotFound => "product not found"@,
        CartError::OutOfStock => name + " is out of stock"@,
        CartError::OnlyLeft { left } => "only "@ + decimal(left as int) + " of "@ + name + " left"@,
    }
}

impl CartError {
    /// The message shown for this error about the product `name`.
    pub fn message(&self, name: &str) -> (m: String)
        ensures
            m@ == cart_message(*self, name@),
    {
        match self {
            CartError::ProductNotFound => String::from_str("product not found"),
            CartError::OutOfStock => {
                let mut m = String::from_str(name);
                m.append(" is out of stock");
                m
            },
            CartError::OnlyLeft { left } => {
                let mut m = String::from_str("only ");
                append_number(&mut m, *left as i64);
                m.append(" of ");
                m.append(name);
                m.append(" left");
                m
            },
        }
    }
}

/// A customer may set a line to `quantity` units of a product with `stock`
/// on the shelf (`None`: the store does not sell it). Zero removes the line.
pub fn check_cart_quantity(quantity: i32, stock: Option<i32>) -> (r: Result<(), CartError>)
    ensures
        quantity <= 0 ==> r is Ok,
        quantity > 0 ==> match stock {
            None => r == Err::<(), CartError>(CartError::ProductNotFound),
            Some(s) => if s == 0 {
                r == Err::<(), CartError>(CartError::OutOfStock)
            } else if quantity > s {
                r == Err::<(), CartError>(CartError::OnlyLeft { left: s })
            } else {
                r is Ok
            },
        },
{
    if quantity > 0 {
        match stock {
            None => return Err(CartError::ProductNotFound),
            Some(s) => {
                if s == 0 {
                    return Err(CartError::OutOfStock);
                }
                if quantity > s {
                    return Err(CartError::OnlyLeft { left: s });
                }
            },
        }
    }
    Ok(())
}

/// Why a checkout is refused.
#[derive(Clone, Copy, PartialEq, Eq, Structural, Debug)]
pub enum CheckoutError {
    /// Online payment is not configured (400).
    OnlinePaymentUnavailable,
    /// The address is served by another store than the cart's (400).
    DifferentStore,
    /// No store delivers to the address (400).
    NotDeliverable,
    /// Nothing in the cart (400).
    EmptyCart,
    /// This line can no longer be bought in that quantity (409).
    Unavailable { line: usize },
}

/// The message shown for a refused checkout over `lines`.
pub open spec fn checkout_message(e: CheckoutError, lines: Seq<CartLineRow>) -> Seq<char> {
    match e {
        CheckoutError::OnlinePaymentUnavailable => "online payment isn't available right now; choose cash on delivery"@,
        CheckoutError::DifferentStore => "this address is served by a different store; your cart is for another area"@,
        CheckoutError::NotDeliverable => "we don't deliver to this address yet"@,
        CheckoutError::EmptyCart => "your cart is empty"@,
        CheckoutError::Unavailable { line } => lines[line as int].name@
            + " is no longer available in that quantity; please review your cart"@,
    }
}

impl CheckoutError {
    /// The message shown for this error, which was found over `lines`.
    pub fn message(&self, lines: &[CartLineRow]) -> (m: String)
        requires
            *self matches CheckoutError::Unavailable { line } ==> line < lines@.len(),
        ensures
            m@ == checkout_message(*self, lines@),
    {
        match self {
            CheckoutError::OnlinePaymentUnavailable => String::from_str(
                "online payment isn't available right now; choose cash on delivery",
            ),
            CheckoutError::DifferentStore => String::from_str(
                "this address is served by a different store; your cart is for another area",
            ),
            CheckoutError::NotDeliverable => String::from_str("we don't deliver to this address yet"),
            CheckoutError::EmptyCart => String::from_str("your cart is empty"),
            CheckoutError::Unavailable { line } => {
                let mut m = String::from_str(lines[*line].name.as_str());
                m.append(" is no longer available in that quantity; please review your cart");
                m
            },
        }
    }
}

/// Online payment needs a configured gateway.
pub fn check_payment_method(method: PaymentMethod, gateway_configured: bool) -> (r: Result<(), CheckoutError>)
    ensures
        (method == PaymentMethod::Online && !gateway_configured) ==> r == Err::<(), CheckoutError>(
            CheckoutError::OnlinePaymentUnavailable,
        ),
        !(method == PaymentMethod::Online && !gateway_configured) ==> r is Ok,
{
    if method == PaymentMethod::Online && !gateway_configured {
        Err(CheckoutError::OnlinePaymentUnavailable)
    } else {
        Ok(())
    }
}

/// The cart's store must be the one serving the delivery address.
pub fn check_serving_store(serving: Option<u128>, cart_store: u128) -> (r: Result<(), CheckoutError>)
    ensures
        serving == Some(cart_store) ==> r is Ok,
        serving is Some && serving != Some(cart_store) ==> r == Err::<(), CheckoutError>(
            CheckoutError::DifferentStore,
        ),
        serving is None ==> r == Err::<(), CheckoutError>(CheckoutError::NotDeliverable),
{
    match serving {
        Some(s) => if s == cart_store {
            Ok(())
        } else {
            Err(CheckoutError::DifferentStore)
        },
        None => Err(CheckoutError::NotDeliverable),
    }
}

/// Every line of a checkout must be available; the first that is not is
/// reported.
pub fn check_checkout_lines(lines: &[CartLineRow]) -> (r: Result<(), CheckoutError>)
    ensures
        lines@.len() == 0 ==> r == Err::<(), CheckoutError>(CheckoutError::EmptyCart),
        lines@.len() > 0 ==> match r {
            Ok(()) => forall|i: int| 0 <= i < lines@.len() ==> available(#[trigger] lines@[i]),
            Err(CheckoutError::Unavailable { line }) => line < lines@.len() && !available(
                lines@[line as int],
            ) && forall|i: int| 0 <= i < line ==> available(#[trigger] lines@[i]),
            Err(_) => false,
        },
{
    if lines.len() == 0 {
        return Err(CheckoutError::EmptyCart);
    }
    let mut i: usize = 0;
    while i < lines.len()
        invariant
            i <= lines.len(),
            forall|j: int| 0 <= j < i ==> available(#[trigger] lines@[j]),
        decreases lines.len() - i,
    {
        if !(lines[i].sellable && lines[i].stock >= lines[i].quantity) {
            return Err(CheckoutError::Unavailable { line: i });
        }
        i = i + 1;
    }
    Ok(())
}

/// `(unit price or MRP, quantity)` of every line.
fn price_list(lines: &[CartLineRow], mrp: bool) -> (v: Vec<(i64, i32)>)
    ensures
        v@ == priced_all(lines@, lines@.len() as int, mrp),
{
    let mut v: Vec<(i64, i32)> = Vec::new();
    let mut i: usize = 0;
    while i < lines.len()
        invariant
            i <= lines.len(),
            v@ == priced_all(lines@, i as int, mrp),
        decreases lines.len() - i,
    {
        let p = if mrp {
            lines[i].mrp_paise
        } else {
            lines[i].price_paise
        };
        v.push((p, lines[i].quantity));
        i = i + 1;
    }
    v
}

/// The bill of a checkout over all of its lines.
pub fn checkout_bill(lines: &[CartLineRow]) -> (b: BillSummary)
    requires
        lines_total_fits(priced_all(lines@, lines@.len() as int, false)),
        lines_total_fits(priced_all(lines@, lines@.len() as int, true)),
    ensures
        b == bill_of(
            lines_total(priced_all(lines@, lines@.len() as int, false), lines@.len() as int),
            lines_total(priced_all(lines@, lines@.len() as int, true), lines@.len() as int),
        ),
{
    let p = price_list(lines, false);
    let m = price_list(lines, true);
    proof {
        lemma_priced_all_len(lines@, lines@.len() as int, false);
        lemma_priced_all_len(lines@, lines@.len() as int, true);
    }
    let item_total = total_of_lines(p.as_slice());
    let mrp_total = total_of_lines(m.as_slice());
    bill(item_total, mrp_total)
}

proof fn lemma_priced_all_len(lines: Seq<CartLineRow>, k: int, mrp: bool)
    requires
        0 <= k,
    ensures
        priced_all(lines, k, mrp).len() == k,
    decreases k,
{
    if k > 0 {
        lemma_priced_all_len(lines, k - 1, mrp);
    }
}

/// The stock a checkout reserves: every line's product and quantity.
pub fn reservation(lines: &[CartLineRow]) -> (v: Vec<(u128, i32)>)
    ensures
        v@.len() == lines@.len(),
        forall|i: int| 0 <= i < lines@.len() ==> #[trigger] v@[i] == (lines@[i].product_id, lines@[i].quantity),
{
    let mut v: Vec<(u128, i32)> = Vec::new();
    let mut i: usize = 0;
    while i < lines.len()
        invariant
            i <= lines.len(),
            v@.len() == i,
            forall|j: int| 0 <= j < i ==> #[trigger] v@[j] == (lines@[j].product_id, lines@[j].quantity),
        decreases lines.len() - i,
    {
        v.push((lines[i].product_id, lines[i].quantity));
        i = i + 1;
    }
    v
}

/// The first line for `product`, if any (to name what just sold out).
pub fn line_for(lines: &[CartLineRow], product: u128) -> (r: Option<usize>)
    ensures
        match r {
            Some(i) => i < lines@.len() && lines@[i as int].product_id == product && forall|j: int|
                0 <= j < i ==> (#[trigger] lines@[j]).product_id != product,
            None => forall|j: int| 0 <= j < lines@.len() ==> (#[trigger] lines@[j]).product_id != product,
        },
{
    let mut i: usize = 0;
    while i < lines.len()
        invariant
            i <= lines.len(),
            forall|j: int| 0 <= j < i ==> (#[trigger] lines@[j]).product_id != product,
        decreases lines.len() - i,
    {
        if lines[i].product_id == product {
            return Some(i);
        }
        i = i + 1;
    }
    None
}

/// The name of the first line for `product`, or "An item".
pub open spec fn sold_out_name(lines: Seq<CartLineRow>, product: u128) -> Seq<char> {
    if exists|i: int| 0 <= i < lines.len() && (#[trigger] lines[i]).product_id == product {
        lines[choose|i: int|
            0 <= i < lines.len() && (#[trigger] lines[i]).product_id == product && forall|j: int|
                0 <= j < i ==> (#[trigger] lines[j]).product_id != product].name@
    } else {
        "An item"@
    }
}

/// The refusal when reserving stock finds `product` sold out: it is named
/// after its cart line.
pub fn sold_out_message(lines: &[CartLineRow], product: u128) -> (m: String)
    ensures
        m@ == sold_out_name(lines@, product) + " just sold out; please review your cart"@,
{
    let mut m = match line_for(lines, product) {
        Some(i) => {
            proof {
                let k = choose|k: int|
                    0 <= k < lines@.len() && (#[trigger] lines@[k]).product_id == product && forall|j: int|
                        0 <= j < k ==> (#[trigger] lines@[j]).product_id != product;
                if k < i {
                    assert(lines@[k].product_id != product);
                }
                if i < k {
                    assert(lines@[i as int].product_id != product);
                }
            }
            String::from_str(lines[i].name.as_str())
        },
        None => String::from_str("An item"),
    };
    m.append(" just sold out; please review your cart");
    m
}

} // verus!
