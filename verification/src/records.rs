//! Inputs and rows passed between the services and the database layer.

use vstd::prelude::*;
use crate::auth::Role;
use crate::text::{trim, trimmed};

verus! {

/// A store's inventory settings for one product.
pub struct InventoryInput<'a> {
    pub quantity: i32,
    pub bin_location: Option<&'a str>,
    pub price_override_paise: Option<i64>,
    pub is_available: bool,
}

/// The inventory settings to store: the bin location trimmed, the rest as given.
pub fn inventory_input<'a>(
    quantity: i32,
    bin_location: Option<&'a str>,
    price_override_paise: Option<i64>,
    is_available: bool,
) -> (i: InventoryInput<'a>)
    ensures
        i.quantity == quantity,
        i.price_override_paise == price_override_paise,
        i.is_available == is_available,
        match bin_location {
            Some(b) => i.bin_location matches Some(t) && t@ == trimmed(b@),
            None => i.bin_location is None,
        },
{
    let bin = match bin_location {
        Some(b) => Some(trim(b)),
        None => None,
    };
    InventoryInput { quantity, bin_location: bin, price_override_paise, is_available }
}

/// Filters of the admin inventory list.
pub struct InventoryFilter<'a> {
    /// Barcode, bin prefix or name fragment.
    pub q: Option<&'a str>,
    /// Only products the store stocks (or does not).
    pub stocked: Option<bool>,
    pub limit: i64,
    pub offset: i64,
}

/// Filters of the admin user list.
pub struct UserFilter<'a> {
    /// Substring match on the phone number.
    pub phone: Option<&'a str>,
    pub role: Option<Role>,
    pub limit: i64,
    pub offset: i64,
}

/// How to reach the rider on a delivery.
pub struct RiderContact {
    pub name: Option<String>,
    pub phone: String,
    pub vehicle_type: String,
    pub vehicle_number: Option<String>,
}

} // verus!
