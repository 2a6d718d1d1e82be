//! Customer address input rules.

use vstd::prelude::*;
use vstd::string::*;
use crate::money::decimal;
use crate::picking::append_number;
use crate::text::{trim, trimmed};

verus! {

/// Customers keep a handful of addresses; this stops abuse.
pub const MAX_ADDRESSES: usize = 20;

/// An optional text field: trimmed, and `None` when nothing is left.
pub fn opt(s: &Option<String>) -> (r: Option<&str>)
    ensures
        match s {
            Some(t) => if trimmed(t@).len() > 0 {
                r matches Some(x) && x@ == trimmed(t@)
            } else {
                r is None
            },
            None => r is None,
        },
{
    match s {
        Some(t) => {
            let x = trim(t.as_str());
            if x.is_empty() {
                None
            } else {
                Some(x)
            }
        },
        None => None,
    }
}

/// A customer with `saved` addresses may add another one.
pub fn may_add_address(saved: usize) -> (ok: bool)
    ensures
        ok == (saved < MAX_ADDRESSES),
{
    saved < MAX_ADDRESSES
}

/// The refusal of one address too many.
pub fn address_limit_message() -> (m: String)
    ensures
        m@ == "you can save up to "@ + decimal(MAX_ADDRESSES as int) + " addresses"@,
{
    let mut m = String::from_str("you can save up to ");
    append_number(&mut m, MAX_ADDRESSES as i64);
    m.append(" addresses");
    m
}

} // verus!
