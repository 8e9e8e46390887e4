//! Inventory input records and their validation. Prices are in cents.

use vstd::prelude::*;
use vstd::string::StringExecFns;

use crate::customers::name_ok;

verus! {

/// A new stock item, as the caller supplies it.
pub struct CreateInventory {
    pub name: String,
    pub quantity: i32,
    pub min_stock: i32,
    pub price: i64,
}

/// A stock item patch: each field optional.
pub struct UpdateInventory {
    pub name: Option<String>,
    pub quantity: Option<i32>,
    pub min_stock: Option<i32>,
    pub price: Option<i64>,
}

/// The attachment request a session takes: an item and a quantity.
pub struct AddInventoryDto {
    pub inventory_id: String,
    pub quantity: i64,
}

/// Every field of a new stock item acceptable.
pub open spec fn create_inventory_ok(d: CreateInventory) -> bool {
    &&& name_ok(d.name@)
    &&& d.quantity >= 0
    &&& d.min_stock >= 0
    &&& d.price >= 0
}

/// Every supplied field of a stock item patch acceptable.
pub open spec fn update_inventory_ok(d: UpdateInventory) -> bool {
    &&& match d.name {
        Some(n) => name_ok(n@),
        None => true,
    }
    &&& match d.quantity {
        Some(q) => q >= 0,
        None => true,
    }
    &&& match d.min_stock {
        Some(m) => m >= 0,
        None => true,
    }
    &&& match d.price {
        Some(p) => p >= 0,
        None => true,
    }
}

fn check_item_name(name: &str) -> (r: Result<(), String>)
    ensures
        r is Ok <==> name_ok(name@),
{
    let tv = crate::text::trim_chars(&crate::text::chars_vec(name));
    if tv.len() < 2 {
        return Err(String::from_str("Name must be at least 2 characters"));
    }
    if tv.len() > 100 {
        return Err(String::from_str("Name is too long (max 100 characters)"));
    }
    Ok(())
}

/// Validate a new stock item: name length and non-negative quantity,
/// minimum stock and price.
pub fn validate_inventory_data(data: &CreateInventory) -> (r: Result<(), String>)
    ensures
        r is Ok <==> create_inventory_ok(*data),
{
    if let Err(e) = check_item_name(data.name.as_str()) {
        return Err(e);
    }
    if data.quantity < 0 {
        return Err(String::from_str("Quantity cannot be negative"));
    }
    if data.min_stock < 0 {
        return Err(String::from_str("Minimum stock cannot be negative"));
    }
    if data.price < 0 {
        return Err(String::from_str("Price cannot be negative"));
    }
    Ok(())
}

/// Validate a stock item patch: each supplied field as in
/// [`validate_inventory_data`].
pub fn validate_update_inventory_data(data: &UpdateInventory) -> (r: Result<(), String>)
    ensures
        r is Ok <==> update_inventory_ok(*data),
{
    match &data.name {
        Some(name) => {
            if let Err(e) = check_item_name(name.as_str()) {
                return Err(e);
            }
        },
        None => {},
    }
    match &data.quantity {
        Some(q) => {
            if *q < 0 {
                return Err(String::from_str("Quantity cannot be negative"));
            }
        },
        None => {},
    }
    match &data.min_stock {
        Some(m) => {
            if *m < 0 {
                return Err(String::from_str("Minimum stock cannot be negative"));
            }
        },
        None => {},
    }
    match &data.price {
        Some(p) => {
            if *p < 0 {
                return Err(String::from_str("Price cannot be negative"));
            }
        },
        None => {},
    }
    Ok(())
}

} // verus!
