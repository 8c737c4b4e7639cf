use vstd::prelude::*;

verus! {

/// One requested line of a proposed sale: the product, how many units,
/// and the unit price charged at sale time (minor currency units),
/// captured independently of the catalog price.
#[derive(Clone, Copy, PartialEq, Eq, Structural, Debug)]
pub struct SaleItemModel {
    pub product_id: i64,
    pub quantity: i64,
    pub unit_price: i64,
}

/// A proposed sale: its line items and the caller-computed totals in minor
/// currency units. The engine stores the totals as given; it does not
/// recompute them from the line items.
pub struct CreateSaleRequest {
    pub items: Vec<SaleItemModel>,
    pub subtotal: i64,
    pub tax: i64,
    pub total: i64,
}

/// A committed sale header, excluding its line items. Write-once: no
/// operation updates or deletes it.
pub struct SaleSummary {
    pub id: i64,
    pub occurred_at: String,
    pub subtotal: i64,
    pub tax: i64,
    pub total: i64,
}

impl Clone for SaleSummary {
    fn clone(&self) -> (r: Self)
        ensures
            r == *self,
    {
        SaleSummary {
            id: self.id,
            occurred_at: self.occurred_at.clone(),
            subtotal: self.subtotal,
            tax: self.tax,
            total: self.total,
        }
    }
}

/// A persisted line item, tied to its owning sale. Created only inside a
/// sale commit; never mutated afterwards.
#[derive(Clone, Copy, PartialEq, Eq, Structural, Debug)]
pub struct SaleItemRow {
    pub id: i64,
    pub sale_id: i64,
    pub product_id: i64,
    pub quantity: i64,
    pub unit_price: i64,
}

/// Why a proposed sale was rejected. A rejected sale leaves the store
/// exactly as it was: no header, no line items, no stock change.
#[derive(Clone, Copy, PartialEq, Eq, Structural, Debug)]
pub enum SaleError {
    /// No catalog row has the requested product id.
    ProductNotFound { product_id: i64 },
    /// The product exists but holds fewer units than requested.
    InsufficientStock { product_id: i64, available: i64, requested: i64 },
}

} // verus!
