//! Admin catalog rules: slugs, MRP and selling prices, store price overrides.

use vstd::prelude::*;
use vstd::string::*;
use crate::money::{rupees, rupees_text};
use crate::slug::{slug_of, slugify};

verus! {

/// Why a catalog write is refused (all are validation failures, 400).
#[derive(Clone, Copy, PartialEq, Eq, Structural, Debug)]
pub enum CatalogError {
    /// No slug was given and the name has no ASCII letters or digits.
    SlugRequired,
    /// The selling price is above the MRP.
    PriceAboveMrp,
    /// A store price override above the product's MRP.
    StorePriceAboveMrp { mrp_paise: i64 },
    /// A new MRP below the price some store already sells at.
    StorePriceAboveNewMrp { store_price_paise: i64 },
    /// A category moved under itself or one of its subcategories.
    CategoryCycle,
}

/// The message shown for a catalog error.
pub open spec fn catalog_message(e: CatalogError) -> Seq<char> {
    match e {
        CatalogError::SlugRequired => "slug is required for this name"@,
        CatalogError::PriceAboveMrp => "selling price can't be above MRP"@,
        CatalogError::StorePriceAboveMrp { mrp_paise } => "store price can't be above MRP ("@
            + rupees_text(mrp_paise as int) + ")"@,
        CatalogError::StorePriceAboveNewMrp { store_price_paise } => "a store sells this at "@
            + rupees_text(store_price_paise as int)
            + ", above the new MRP; lower that store price first"@,
        CatalogError::CategoryCycle => "a category can't be moved under itself or its own subcategory"@,
    }
}

impl CatalogError {
    /// The message shown for this error.
    pub fn message(&self) -> (m: String)
        ensures
            m@ == catalog_message(*self),
    {
        match self {
            CatalogError::SlugRequired => String::from_str("slug is required for this name"),
            CatalogError::PriceAboveMrp => String::from_str("selling price can't be above MRP"),
            CatalogError::StorePriceAboveMrp { mrp_paise } => {
                let mut m = String::from_str("store price can't be above MRP (");
                let r = rupees(*mrp_paise);
                m.append(r.as_str());
                m.append(")");
                m
            },
            CatalogError::StorePriceAboveNewMrp { store_price_paise } => {
                let mut m = String::from_str("a store sells this at ");
                let r = rupees(*store_price_paise);
                m.append(r.as_str());
                m.append(", above the new MRP; lower that store price first");
                m
            },
            CatalogError::CategoryCycle => String::from_str(
                "a category can't be moved under itself or its own subcategory",
            ),
        }
    }
}

/// The selling price may not exceed the MRP.
pub fn check_prices(mrp: i64, price: i64) -> (r: Result<(), CatalogError>)
    ensures
        price <= mrp <==> r is Ok,
        price > mrp ==> r == Err::<(), CatalogError>(CatalogError::PriceAboveMrp),
{
    if price > mrp {
        return Err(CatalogError::PriceAboveMrp);
    }
    Ok(())
}

/// The slug a category is stored under: the given one, or one derived from
/// its name.
pub open spec fn category_slug_text(slug: Option<Seq<char>>, name: Seq<char>) -> Seq<char> {
    match slug {
        Some(s) => s,
        None => slug_of(seq![name]),
    }
}

/// The slug a product is stored under: the given one, or one derived from
/// its brand, name and unit.
pub open spec fn product_slug_text(
    slug: Option<Seq<char>>,
    brand: Option<Seq<char>>,
    name: Seq<char>,
    unit_label: Seq<char>,
) -> Seq<char> {
    match slug {
        Some(s) => s,
        None => slug_of(seq![or_empty(brand), name, unit_label]),
    }
}

/// The text, or nothing.
pub open spec fn or_empty(t: Option<Seq<char>>) -> Seq<char> {
    match t {
        Some(x) => x,
        None => Seq::<char>::empty(),
    }
}

pub open spec fn opt_view(o: Option<&str>) -> Option<Seq<char>> {
    match o {
        Some(s) => Some(s@),
        None => None,
    }
}

/// A category's slug; refused when it comes out empty.
pub fn category_slug(slug: Option<&str>, name: &str) -> (r: Result<String, CatalogError>)
    ensures
        category_slug_text(opt_view(slug), name@).len() > 0 ==> (r matches Ok(s) && s@
            == category_slug_text(opt_view(slug), name@)),
        category_slug_text(opt_view(slug), name@).len() == 0 ==> r == Err::<String, CatalogError>(
            CatalogError::SlugRequired,
        ),
{
    let s = match slug {
        Some(s) => String::from_str(s),
        None => {
            let parts = vec![name];
            let r = slugify(parts.as_slice());
            assert(crate::slug::parts_view(parts@) =~= seq![name@]);
            r
        },
    };
    if s.as_str().is_empty() {
        return Err(CatalogError::SlugRequired);
    }
    Ok(s)
}

/// A product's slug; refused when it comes out empty.
pub fn product_slug(slug: Option<&str>, brand: Option<&str>, name: &str, unit_label: &str) -> (r:
    Result<String, CatalogError>)
    ensures
        product_slug_text(opt_view(slug), opt_view(brand), name@, unit_label@).len() > 0
            ==> (r matches Ok(s) && s@ == product_slug_text(
            opt_view(slug),
            opt_view(brand),
            name@,
            unit_label@,
        )),
        product_slug_text(opt_view(slug), opt_view(brand), name@, unit_label@).len() == 0 ==> r
            == Err::<String, CatalogError>(CatalogError::SlugRequired),
{
    let s = match slug {
        Some(s) => String::from_str(s),
        None => {
            let b: &str = match brand {
                Some(b) => b,
                None => "",
            };
            proof {
                reveal_strlit("");
                if brand is None {
                    assert(b@ =~= Seq::<char>::empty());
                }
            }
            let parts = vec![b, name, unit_label];
            let r = slugify(parts.as_slice());
            let ghost bv: Seq<char> = or_empty(opt_view(brand));
            assert(bv == b@);
            assert(crate::slug::parts_view(parts@) =~= seq![bv, name@, unit_label@]);
            assert(r@ == product_slug_text(opt_view(slug), opt_view(brand), name@, unit_label@));
            r
        },
    };
    if s.as_str().is_empty() {
        return Err(CatalogError::SlugRequired);
    }
    Ok(s)
}

/// A store's price override may not exceed the product's MRP.
pub fn check_store_price(price_override: Option<i64>, mrp: i64) -> (r: Result<(), CatalogError>)
    ensures
        match price_override {
            Some(p) => if p > mrp {
                r == Err::<(), CatalogError>(CatalogError::StorePriceAboveMrp { mrp_paise: mrp })
            } else {
                r is Ok
            },
            None => r is Ok,
        },
{
    match price_override {
        Some(p) => if p > mrp {
            Err(CatalogError::StorePriceAboveMrp { mrp_paise: mrp })
        } else {
            Ok(())
        },
        None => Ok(()),
    }
}

/// A new MRP may not go below the highest price a store already sells at.
pub fn check_mrp_cut(max_store_price: Option<i64>, new_mrp: i64) -> (r: Result<(), CatalogError>)
    ensures
        match max_store_price {
            Some(p) => if p > new_mrp {
                r == Err::<(), CatalogError>(
                    CatalogError::StorePriceAboveNewMrp { store_price_paise: p },
                )
            } else {
                r is Ok
            },
            None => r is Ok,
        },
{
    match max_store_price {
        Some(p) => if p > new_mrp {
            Err(CatalogError::StorePriceAboveNewMrp { store_price_paise: p })
        } else {
            Ok(())
        },
        None => Ok(()),
    }
}

/// A category may not move under itself or its own subcategory.
pub fn check_category_move(moves_under_itself: bool) -> (r: Result<(), CatalogError>)
    ensures
        moves_under_itself ==> r == Err::<(), CatalogError>(CatalogError::CategoryCycle),
        !moves_under_itself ==> r is Ok,
{
    if moves_under_itself {
        Err(CatalogError::CategoryCycle)
    } else {
        Ok(())
    }
}

} // verus!
