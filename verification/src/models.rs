//! The records that travel between the price file and the store.
use vstd::prelude::*;
use vstd::string::*;

use crate::text::{trim, trimmed};

verus! {

/// A floating-point amount, held by its two printed forms.
#[derive(Debug)]
pub struct Amount {
    /// The shortest text that reads back to the amount.
    pub text: String,
    /// The amount rounded to two decimals.
    pub fixed: String,
}

impl Clone for Amount {
    fn clone(&self) -> (copy: Self)
        ensures
            copy == *self,
    {
        Amount { text: self.text.clone(), fixed: self.fixed.clone() }
    }
}

/// A line of the price file.
#[derive(Debug)]
pub struct Product {
    pub sku: String,
    pub title: String,
    pub handle: String,
    pub price: Amount,
    pub inventory_quantity: i32,
    pub barcode: String,
    pub weight: Amount,
    pub description: String,
    pub cost: Amount,
    pub compare_at_price: Amount,
    pub oem: String,
}

impl Clone for Product {
    fn clone(&self) -> (copy: Self)
        ensures
            copy == *self,
    {
        Product {
            sku: self.sku.clone(),
            title: self.title.clone(),
            handle: self.handle.clone(),
            price: self.price.clone(),
            inventory_quantity: self.inventory_quantity,
            barcode: self.barcode.clone(),
            weight: self.weight.clone(),
            description: self.description.clone(),
            cost: self.cost.clone(),
            compare_at_price: self.compare_at_price.clone(),
            oem: self.oem.clone(),
        }
    }
}

/// The SKU that a cell of the price file writes: its text without the white
/// space around it.
pub fn deserialize_sku(raw: &str) -> (sku: String)
    ensures
        sku@ == trimmed(raw@),
{
    trim(raw).to_owned()
}

/// A product of the store.
#[derive(Debug)]
pub struct ShopifyProduct {
    pub id: Option<i64>,
    pub title: String,
    pub body_html: Option<String>,
    pub vendor: Option<String>,
    pub product_type: Option<String>,
    pub variants: Vec<ShopifyVariant>,
}

/// A variant of a product of the store.
#[derive(Debug)]
pub struct ShopifyVariant {
    pub id: Option<i64>,
    pub sku: String,
    pub price: String,
    pub compare_at_price: Option<String>,
    pub inventory_quantity: Option<i32>,
    pub barcode: Option<String>,
    pub weight: Option<Amount>,
    pub inventory_item_id: Option<i64>,
}

/// A product as the body of a request.
#[derive(Debug)]
pub struct ShopifyProductWrapper {
    pub product: ShopifyProduct,
}

/// The quantity of an item at a location.
#[derive(Debug)]
pub struct InventoryLevelSet {
    pub location_id: i64,
    pub inventory_item_id: i64,
    pub available: i32,
}

/// The body of an answer that holds one product or several.
#[derive(Debug)]
pub struct ShopifyResponse<T> {
    pub product: Option<T>,
    pub products: Option<Vec<T>>,
}

/// A place that holds stock.
#[derive(Debug)]
pub struct ShopifyLocation {
    pub id: i64,
    pub name: String,
}

/// The places that hold stock.
#[derive(Debug)]
pub struct ShopifyLocationsResponse {
    pub locations: Vec<ShopifyLocation>,
}

} // verus!
